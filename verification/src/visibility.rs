//! Visibility rows, the filters that select them and the store that keeps them.

use vstd::prelude::*;
use vstd::seq_lib::*;
use vstd::string::*;

use crate::attributes::{
    values_are_compared_by_type, SearchAttributeValue, SearchAttributeValueView, SearchAttributes,
};
use crate::error::{store_outcome, StoreError, StoreErrorView};
use crate::ids::{hyphenated, hyphenated_is_injective, RunId, WorkflowId};
use crate::order::{
    enumerates, listing_length, listings_hold_the_same, lists, same_elements_contain, Ranked,
};
use crate::projection::WorkflowStatus;
use crate::store::failing;
use crate::text::{
    optional_text, same_text, text_at_most, text_order_antisymmetric, text_order_total,
    text_order_transitive, text_precedes,
};
use crate::timestamp::{timestamp_order, Timestamp};

verus! {

/// Complete row of one workflow execution.
#[derive(Debug, PartialEq, Eq)]
pub struct VisibilityRecord {
    /// Logical workflow identifier.
    pub workflow_id: WorkflowId,
    /// Concrete run identifier of the execution.
    pub run_id: RunId,
    /// Workflow type recorded when the execution started.
    pub workflow_type: String,
    /// Current workflow status.
    pub status: WorkflowStatus,
    /// When the execution started.
    pub start_time: Timestamp,
    /// When the execution closed, if it did.
    pub close_time: Option<Timestamp>,
    /// Typed custom search attributes.
    pub search_attributes: SearchAttributes,
}

/// Mathematical value of a visibility row or of a summary of one.
pub struct VisibilityView {
    /// Logical workflow identifier.
    pub workflow_id: WorkflowId,
    /// Concrete run identifier of the execution.
    pub run_id: RunId,
    /// Workflow type recorded when the execution started.
    pub workflow_type: Seq<char>,
    /// Current workflow status.
    pub status: WorkflowStatus,
    /// When the execution started.
    pub start_time: Timestamp,
    /// When the execution closed.
    pub close_time: Option<Timestamp>,
    /// Typed custom search attributes.
    pub search_attributes: Map<Seq<char>, SearchAttributeValueView>,
}

impl View for VisibilityRecord {
    type V = VisibilityView;

    open spec fn view(&self) -> VisibilityView {
        VisibilityView {
            workflow_id: self.workflow_id,
            run_id: self.run_id,
            workflow_type: self.workflow_type@,
            status: self.status,
            start_time: self.start_time,
            close_time: self.close_time,
            search_attributes: self.search_attributes@,
        }
    }
}

impl Clone for VisibilityRecord {
    fn clone(&self) -> (copy: Self)
        ensures
            copy@ == self@,
    {
        VisibilityRecord {
            workflow_id: self.workflow_id,
            run_id: self.run_id,
            workflow_type: self.workflow_type.clone(),
            status: self.status,
            start_time: self.start_time,
            close_time: self.close_time,
            search_attributes: self.search_attributes.clone(),
        }
    }
}

/// Lightweight projection returned by visibility queries.
#[derive(Debug, PartialEq, Eq)]
pub struct WorkflowSummary {
    /// Logical workflow identifier.
    pub workflow_id: WorkflowId,
    /// Concrete run identifier of the execution.
    pub run_id: RunId,
    /// Workflow type recorded when the execution started.
    pub workflow_type: String,
    /// Current workflow status.
    pub status: WorkflowStatus,
    /// When the execution started.
    pub start_time: Timestamp,
    /// When the execution closed, if it did.
    pub close_time: Option<Timestamp>,
    /// Typed custom search attributes.
    pub search_attributes: SearchAttributes,
}

impl View for WorkflowSummary {
    type V = VisibilityView;

    open spec fn view(&self) -> VisibilityView {
        VisibilityView {
            workflow_id: self.workflow_id,
            run_id: self.run_id,
            workflow_type: self.workflow_type@,
            status: self.status,
            start_time: self.start_time,
            close_time: self.close_time,
            search_attributes: self.search_attributes@,
        }
    }
}

impl From<VisibilityRecord> for WorkflowSummary {
    fn from(record: VisibilityRecord) -> (summary: Self) {
        WorkflowSummary {
            workflow_id: record.workflow_id,
            run_id: record.run_id,
            workflow_type: record.workflow_type,
            status: record.status,
            start_time: record.start_time,
            close_time: record.close_time,
            search_attributes: record.search_attributes,
        }
    }
}

impl vstd::std_specs::convert::FromSpecImpl<VisibilityRecord> for WorkflowSummary {
    open spec fn obeys_from_spec() -> bool {
        true
    }

    open spec fn from_spec(record: VisibilityRecord) -> Self {
        WorkflowSummary {
            workflow_id: record.workflow_id,
            run_id: record.run_id,
            workflow_type: record.workflow_type,
            status: record.status,
            start_time: record.start_time,
            close_time: record.close_time,
            search_attributes: record.search_attributes,
        }
    }
}

/// Order of summaries: by start, then by the texts of the workflow and of the run.
impl Ranked for WorkflowSummary {
    open spec fn at_most(&self, other: &Self) -> bool {
        self@.listed_before(other@)
    }

    fn precedes(&self, other: &Self) -> (precedes: bool) {
        if self.start_time != other.start_time {
            proof {
                timestamp_order(self.start_time, other.start_time, other.start_time);
            }
            return self.start_time.not_after(&other.start_time);
        }
        if self.workflow_id != other.workflow_id {
            proof {
                let ids = (self.workflow_id.value, other.workflow_id.value);
                if hyphenated(ids.0) == hyphenated(ids.1) {
                    hyphenated_is_injective(ids.0, ids.1);
                }
            }
            return text_precedes(
                self.workflow_id.to_string().as_str(),
                other.workflow_id.to_string().as_str(),
            );
        }
        text_precedes(self.run_id.to_string().as_str(), other.run_id.to_string().as_str())
    }

    proof fn at_most_total(a: Self, b: Self) {
        timestamp_order(a.start_time, b.start_time, b.start_time);
        text_order_total(hyphenated(a.workflow_id.value), hyphenated(b.workflow_id.value));
        text_order_total(hyphenated(a.run_id.value), hyphenated(b.run_id.value));
    }

    proof fn at_most_transitive(a: Self, b: Self, c: Self) {
        timestamp_order(a.start_time, b.start_time, c.start_time);
        timestamp_order(b.start_time, c.start_time, a.start_time);
        timestamp_order(c.start_time, a.start_time, b.start_time);
        if a.start_time == b.start_time && b.start_time == c.start_time {
            let x = hyphenated(a.workflow_id.value);
            let y = hyphenated(b.workflow_id.value);
            let z = hyphenated(c.workflow_id.value);
            if x == y && y == z {
                text_order_transitive(
                    hyphenated(a.run_id.value),
                    hyphenated(b.run_id.value),
                    hyphenated(c.run_id.value),
                );
            } else if x != y && y != z {
                text_order_transitive(x, y, z);
                if x == z {
                    text_order_antisymmetric(x, y);
                }
            }
        }
    }
}

impl VisibilityView {
    /// Order of summaries: by start, then by the texts of the workflow and of the run.
    pub open spec fn listed_before(self, other: Self) -> bool {
        let workflow = hyphenated(self.workflow_id.value);
        let other_workflow = hyphenated(other.workflow_id.value);
        if self.start_time != other.start_time {
            self.start_time.at_most(other.start_time)
        } else if workflow != other_workflow {
            text_at_most(workflow, other_workflow)
        } else {
            text_at_most(hyphenated(self.run_id.value), hyphenated(other.run_id.value))
        }
    }
}

/// Typed predicate over one custom search attribute.
#[derive(Debug, PartialEq, Eq)]
pub enum SearchAttributePredicate {
    /// The stored value equals `value`.
    Equals {
        /// Search attribute name.
        name: String,
        /// Expected typed value.
        value: SearchAttributeValue,
    },
    /// The stored value is greater than `value`.
    GreaterThan {
        /// Search attribute name.
        name: String,
        /// Exclusive lower bound.
        value: SearchAttributeValue,
    },
    /// The stored value is less than `value`.
    LessThan {
        /// Search attribute name.
        name: String,
        /// Exclusive upper bound.
        value: SearchAttributeValue,
    },
    /// The stored value is a keyword list that holds `keyword`.
    Contains {
        /// Search attribute name.
        name: String,
        /// Keyword expected in the list.
        keyword: String,
    },
}

/// Mathematical value of a [`SearchAttributePredicate`].
pub enum SearchAttributePredicateView {
    /// The stored value equals `value`.
    Equals {
        /// Search attribute name.
        name: Seq<char>,
        /// Expected typed value.
        value: SearchAttributeValueView,
    },
    /// The stored value is greater than `value`.
    GreaterThan {
        /// Search attribute name.
        name: Seq<char>,
        /// Exclusive lower bound.
        value: SearchAttributeValueView,
    },
    /// The stored value is less than `value`.
    LessThan {
        /// Search attribute name.
        name: Seq<char>,
        /// Exclusive upper bound.
        value: SearchAttributeValueView,
    },
    /// The stored value is a keyword list that holds `keyword`.
    Contains {
        /// Search attribute name.
        name: Seq<char>,
        /// Keyword expected in the list.
        keyword: Seq<char>,
    },
}

impl View for SearchAttributePredicate {
    type V = SearchAttributePredicateView;

    open spec fn view(&self) -> SearchAttributePredicateView {
        match self {
            SearchAttributePredicate::Equals {
                name,
                value,
            } => SearchAttributePredicateView::Equals { name: name@, value: value@ },
            SearchAttributePredicate::GreaterThan {
                name,
                value,
            } => SearchAttributePredicateView::GreaterThan { name: name@, value: value@ },
            SearchAttributePredicate::LessThan {
                name,
                value,
            } => SearchAttributePredicateView::LessThan { name: name@, value: value@ },
            SearchAttributePredicate::Contains {
                name,
                keyword,
            } => SearchAttributePredicateView::Contains { name: name@, keyword: keyword@ },
        }
    }
}

impl SearchAttributePredicateView {
    /// The predicate holds of a row. A missing attribute satisfies no predicate, and neither does
    /// a comparison of different types.
    pub open spec fn matches(self, row: VisibilityView) -> bool {
        let attributes = row.search_attributes;
        match self {
            SearchAttributePredicateView::Equals { name, value } => attributes.contains_key(name)
                && attributes[name].equals(value),
            SearchAttributePredicateView::GreaterThan { name, value } => attributes.contains_key(
                name,
            ) && attributes[name].greater_than(value),
            SearchAttributePredicateView::LessThan { name, value } => attributes.contains_key(name)
                && value.greater_than(attributes[name]),
            SearchAttributePredicateView::Contains { name, keyword } => attributes.contains_key(
                name,
            ) && attributes[name].contains_keyword(keyword),
        }
    }
}

fn stored_greater_than(stored: &SearchAttributeValue, value: &SearchAttributeValue) -> (greater:
    bool)
    ensures
        greater == stored@.greater_than(value@),
{
    match (stored, value) {
        (SearchAttributeValue::Int(stored), SearchAttributeValue::Int(value)) => *stored > *value,
        (SearchAttributeValue::Float(stored), SearchAttributeValue::Float(value)) => {
            value.less_than(stored)
        },
        (SearchAttributeValue::Datetime(stored), SearchAttributeValue::Datetime(value)) => {
            !stored.not_after(value)
        },
        _ => false,
    }
}

fn stored_less_than(stored: &SearchAttributeValue, value: &SearchAttributeValue) -> (less: bool)
    ensures
        less == value@.greater_than(stored@),
{
    match (stored, value) {
        (SearchAttributeValue::Int(stored), SearchAttributeValue::Int(value)) => *stored < *value,
        (SearchAttributeValue::Float(stored), SearchAttributeValue::Float(value)) => {
            stored.less_than(value)
        },
        (SearchAttributeValue::Datetime(stored), SearchAttributeValue::Datetime(value)) => {
            !value.not_after(stored)
        },
        _ => false,
    }
}

impl SearchAttributePredicate {
    /// Whether the predicate holds of `summary`.
    pub fn matches(&self, summary: &WorkflowSummary) -> (holds: bool)
        ensures
            holds == self@.matches(summary@),
    {
        match self {
            SearchAttributePredicate::Equals { name, value } => {
                match summary.search_attributes.get(name.as_str()) {
                    Some(stored) => stored.equals(value),
                    None => false,
                }
            },
            SearchAttributePredicate::GreaterThan { name, value } => {
                match summary.search_attributes.get(name.as_str()) {
                    Some(stored) => stored_greater_than(stored, value),
                    None => false,
                }
            },
            SearchAttributePredicate::LessThan { name, value } => {
                match summary.search_attributes.get(name.as_str()) {
                    Some(stored) => stored_less_than(stored, value),
                    None => false,
                }
            },
            SearchAttributePredicate::Contains { name, keyword } => {
                match summary.search_attributes.get(name.as_str()) {
                    Some(stored) => stored.contains_keyword(keyword.as_str()),
                    None => false,
                }
            },
        }
    }
}

/// Conditions and pagination of a visibility query. Unset conditions hold of every row; the bounds
/// on the close time hold only of rows that have one.
#[derive(Debug, PartialEq, Eq)]
pub struct ListWorkflowsFilter {
    /// Exact workflow type.
    pub workflow_type: Option<String>,
    /// Exact status.
    pub status: Option<WorkflowStatus>,
    /// Earliest start, inclusive.
    pub started_after: Option<Timestamp>,
    /// Latest start, inclusive.
    pub started_before: Option<Timestamp>,
    /// Earliest close, inclusive; running workflows do not match.
    pub closed_after: Option<Timestamp>,
    /// Latest close, inclusive; running workflows do not match.
    pub closed_before: Option<Timestamp>,
    /// Predicates on search attributes, all of which must hold.
    pub search_attributes: Vec<SearchAttributePredicate>,
    /// Most summaries to return after filtering and ordering.
    pub limit: Option<u32>,
    /// Summaries to skip after filtering and ordering.
    pub offset: Option<u32>,
}

/// Mathematical value of a [`ListWorkflowsFilter`].
pub struct ListWorkflowsFilterView {
    /// Exact workflow type.
    pub workflow_type: Option<Seq<char>>,
    /// Exact status.
    pub status: Option<WorkflowStatus>,
    /// Earliest start, inclusive.
    pub started_after: Option<Timestamp>,
    /// Latest start, inclusive.
    pub started_before: Option<Timestamp>,
    /// Earliest close, inclusive.
    pub closed_after: Option<Timestamp>,
    /// Latest close, inclusive.
    pub closed_before: Option<Timestamp>,
    /// Predicates on search attributes.
    pub search_attributes: Seq<SearchAttributePredicateView>,
    /// Most summaries to return.
    pub limit: Option<u32>,
    /// Summaries to skip.
    pub offset: Option<u32>,
}

/// Values of a list of predicates.
pub open spec fn predicate_views(predicates: Seq<SearchAttributePredicate>) -> Seq<
    SearchAttributePredicateView,
> {
    predicates.map_values(|predicate: SearchAttributePredicate| predicate@)
}

impl View for ListWorkflowsFilter {
    type V = ListWorkflowsFilterView;

    open spec fn view(&self) -> ListWorkflowsFilterView {
        ListWorkflowsFilterView {
            workflow_type: optional_text(self.workflow_type),
            status: self.status,
            started_after: self.started_after,
            started_before: self.started_before,
            closed_after: self.closed_after,
            closed_before: self.closed_before,
            search_attributes: predicate_views(self.search_attributes@),
            limit: self.limit,
            offset: self.offset,
        }
    }
}

impl ListWorkflowsFilterView {
    /// The filter without conditions and pagination.
    pub open spec fn unset() -> Self {
        ListWorkflowsFilterView {
            workflow_type: None,
            status: None,
            started_after: None,
            started_before: None,
            closed_after: None,
            closed_before: None,
            search_attributes: Seq::empty(),
            limit: None,
            offset: None,
        }
    }

    /// All conditions hold of the row.
    pub open spec fn matches(self, row: VisibilityView) -> bool {
        &&& self.workflow_type matches Some(workflow_type) ==> row.workflow_type == workflow_type
        &&& self.status matches Some(status) ==> row.status == status
        &&& self.started_after matches Some(bound) ==> bound.at_most(row.start_time)
        &&& self.started_before matches Some(bound) ==> row.start_time.at_most(bound)
        &&& self.closed_after matches Some(bound) ==> (row.close_time matches Some(closed)
            && bound.at_most(closed))
        &&& self.closed_before matches Some(bound) ==> (row.close_time matches Some(closed)
            && closed.at_most(bound))
        &&& forall|i: int|
            0 <= i < self.search_attributes.len() ==> (#[trigger] self.search_attributes[i]).matches(
                row,
            )
    }

    /// The page of an ordered listing that the filter asks for.
    pub open spec fn page(self, all: Seq<VisibilityView>) -> Seq<VisibilityView> {
        let rest = match self.offset {
            Some(offset) => if offset <= all.len() {
                all.skip(offset as int)
            } else {
                Seq::empty()
            },
            None => all,
        };
        match self.limit {
            Some(limit) => if limit <= rest.len() {
                rest.take(limit as int)
            } else {
                rest
            },
            None => rest,
        }
    }
}

impl Default for ListWorkflowsFilter {
    fn default() -> (filter: Self)
        ensures
            filter@ == ListWorkflowsFilterView::unset(),
    {
        let filter = ListWorkflowsFilter {
            workflow_type: None,
            status: None,
            started_after: None,
            started_before: None,
            closed_after: None,
            closed_before: None,
            search_attributes: Vec::new(),
            limit: None,
            offset: None,
        };
        assert(predicate_views(filter.search_attributes@) =~= Seq::empty());
        filter
    }
}

impl ListWorkflowsFilter {
    /// Whether all conditions hold of `summary`; pagination is left aside.
    pub fn matches(&self, summary: &WorkflowSummary) -> (holds: bool)
        ensures
            holds == self@.matches(summary@),
    {
        self.matches_workflow_type(summary) && self.matches_status(summary)
            && self.matches_started_after(summary) && self.matches_started_before(summary)
            && self.matches_closed_after(summary) && self.matches_closed_before(summary)
            && self.matches_search_attributes(summary)
    }

    fn matches_workflow_type(&self, summary: &WorkflowSummary) -> (holds: bool)
        ensures
            holds == (self@.workflow_type matches Some(workflow_type) ==> summary@.workflow_type
                == workflow_type),
    {
        match &self.workflow_type {
            Some(workflow_type) => same_text(
                workflow_type.as_str(),
                summary.workflow_type.as_str(),
            ),
            None => true,
        }
    }

    fn matches_status(&self, summary: &WorkflowSummary) -> (holds: bool)
        ensures
            holds == (self@.status matches Some(status) ==> summary@.status == status),
    {
        match self.status {
            Some(status) => summary.status == status,
            None => true,
        }
    }

    fn matches_started_after(&self, summary: &WorkflowSummary) -> (holds: bool)
        ensures
            holds == (self@.started_after matches Some(bound) ==> bound.at_most(
                summary@.start_time,
            )),
    {
        match self.started_after {
            Some(bound) => bound.not_after(&summary.start_time),
            None => true,
        }
    }

    fn matches_started_before(&self, summary: &WorkflowSummary) -> (holds: bool)
        ensures
            holds == (self@.started_before matches Some(bound) ==> summary@.start_time.at_most(
                bound,
            )),
    {
        match self.started_before {
            Some(bound) => summary.start_time.not_after(&bound),
            None => true,
        }
    }

    fn matches_closed_after(&self, summary: &WorkflowSummary) -> (holds: bool)
        ensures
            holds == (self@.closed_after matches Some(bound) ==> (summary@.close_time matches Some(
                closed,
            ) && bound.at_most(closed))),
    {
        match (self.closed_after, summary.close_time) {
            (Some(bound), Some(closed)) => bound.not_after(&closed),
            (Some(_), None) => false,
            (None, _) => true,
        }
    }

    fn matches_closed_before(&self, summary: &WorkflowSummary) -> (holds: bool)
        ensures
            holds == (self@.closed_before matches Some(bound) ==> (summary@.close_time matches Some(
                closed,
            ) && closed.at_most(bound))),
    {
        match (self.closed_before, summary.close_time) {
            (Some(bound), Some(closed)) => closed.not_after(&bound),
            (Some(_), None) => false,
            (None, _) => true,
        }
    }

    fn matches_search_attributes(&self, summary: &WorkflowSummary) -> (holds: bool)
        ensures
            holds == (forall|i: int|
                0 <= i < self@.search_attributes.len() ==> (
                #[trigger] self@.search_attributes[i]).matches(summary@)),
    {
        let mut i: usize = 0;
        while i < self.search_attributes.len()
            invariant
                i <= self.search_attributes.len(),
                forall|j: int|
                    0 <= j < i ==> (#[trigger] self@.search_attributes[j]).matches(summary@),
            decreases self.search_attributes.len() - i,
        {
            assert(self@.search_attributes[i as int] == self.search_attributes@[i as int]@);
            if !self.search_attributes[i].matches(summary) {
                return false;
            }
            i += 1;
        }
        true
    }
}

/// A filter without conditions holds of every row, and its page is the whole listing.
pub proof fn unset_filter_matches_every_row(row: VisibilityView, all: Seq<VisibilityView>)
    ensures
        ListWorkflowsFilterView::unset().matches(row),
        ListWorkflowsFilterView::unset().page(all) == all,
{
}

/// A bound on the close time never holds of a row that is not closed.
pub proof fn running_rows_have_no_close_time(filter: ListWorkflowsFilterView, row: VisibilityView)
    requires
        row.close_time is None,
        filter.closed_after is Some || filter.closed_before is Some,
    ensures
        !filter.matches(row),
{
}

/// Values of a list of summaries.
pub open spec fn summary_views(summaries: Seq<WorkflowSummary>) -> Seq<VisibilityView> {
    summaries.map_values(|summary: WorkflowSummary| summary@)
}

/// The rows that a filter selects.
pub open spec fn selected_rows(
    rows: Map<(WorkflowId, RunId), VisibilityView>,
    filter: ListWorkflowsFilterView,
) -> Map<(WorkflowId, RunId), VisibilityView> {
    rows.restrict(
        rows.dom().filter(|key: (WorkflowId, RunId)| filter.matches(rows[key])),
    )
}

/// Every summary is listed no later than those behind it.
pub open spec fn rows_in_order(all: Seq<VisibilityView>) -> bool {
    forall|i: int, j: int|
        #![trigger all[i], all[j]]
        0 <= i < j < all.len() ==> all[i].listed_before(all[j])
}

/// `all` lists the selected rows, each once, in order.
pub open spec fn listing(
    all: Seq<VisibilityView>,
    rows: Map<(WorkflowId, RunId), VisibilityView>,
    filter: ListWorkflowsFilterView,
) -> bool {
    &&& rows_in_order(all)
    &&& lists(all, selected_rows(rows, filter))
}

/// Every row stands under its own workflow and run.
pub open spec fn rows_keyed(rows: Map<(WorkflowId, RunId), VisibilityView>) -> bool {
    forall|key: (WorkflowId, RunId)| #[trigger]
        rows.contains_key(key) ==> rows[key].workflow_id == key.0 && rows[key].run_id == key.1
}

/// Rows that are listed are rows that were selected.
proof fn listed_row_is_selected(
    all: Seq<VisibilityView>,
    selected: Map<(WorkflowId, RunId), VisibilityView>,
    place: int,
)
    requires
        lists(all, selected),
        rows_keyed(selected),
        0 <= place < all.len(),
    ensures
        ({
            let key = (all[place].workflow_id, all[place].run_id);
            selected.contains_key(key) && selected[key] == all[place]
        }),
{
    let keys = choose|keys: Seq<(WorkflowId, RunId)>| #[trigger] enumerates(keys, all, selected);
    assert(keys.contains(keys[place]));
    assert(all[place] == selected[keys[place]]);
}

proof fn ordered_rows_are_equal(a: Seq<VisibilityView>, b: Seq<VisibilityView>)
    requires
        rows_in_order(a),
        rows_in_order(b),
        a.to_multiset() == b.to_multiset(),
        forall|i: int, j: int|
            #![trigger a[i], a[j]]
            0 <= i < a.len() && 0 <= j < a.len() && a[i].listed_before(a[j]) && a[j].listed_before(
                a[i],
            ) ==> a[i] == a[j],
    ensures
        a == b,
    decreases a.len(),
{
    broadcast use group_to_multiset_ensures;

    assert(a.len() == a.to_multiset().len());
    assert(b.len() == b.to_multiset().len());
    if a.len() == 0 {
        assert(a =~= b);
    } else {
        let x = a.last();
        let y = b.last();
        assert(a.contains(a[a.len() - 1]));
        assert(b.contains(b[b.len() - 1]));
        same_elements_contain(a, b, x);
        same_elements_contain(a, b, y);
        let i = choose|i: int| 0 <= i < a.len() && a[i] == y;
        let j = choose|j: int| 0 <= j < b.len() && b[j] == x;
        if x != y {
            assert(a[i].listed_before(a[a.len() - 1]));
            assert(b[j].listed_before(b[b.len() - 1]));
        }
        let a1 = a.drop_last();
        let b1 = b.drop_last();
        assert(a =~= a1.push(x));
        assert(b =~= b1.push(y));
        assert(a1.to_multiset() =~= a.to_multiset().remove(x));
        assert(b1.to_multiset() =~= b.to_multiset().remove(y));
        ordered_rows_are_equal(a1, b1);
    }
}

/// The order of a listing does not depend on how its rows were recorded: two listings of the same
/// rows are equal, and so are their pages.
pub proof fn listings_are_determined(
    a: Seq<VisibilityView>,
    b: Seq<VisibilityView>,
    rows: Map<(WorkflowId, RunId), VisibilityView>,
    filter: ListWorkflowsFilterView,
)
    requires
        rows_keyed(rows),
        listing(a, rows, filter),
        listing(b, rows, filter),
    ensures
        a == b,
        filter.page(a) == filter.page(b),
{
    let selected = selected_rows(rows, filter);
    assert(rows_keyed(selected));
    listings_hold_the_same(a, b, selected);
    assert forall|i: int, j: int|
        #![trigger a[i], a[j]]
        0 <= i < a.len() && 0 <= j < a.len() && a[i].listed_before(a[j]) && a[j].listed_before(
            a[i],
        ) implies a[i] == a[j] by {
        listed_row_is_selected(a, selected, i);
        listed_row_is_selected(a, selected, j);
        timestamp_order(a[i].start_time, a[j].start_time, a[j].start_time);
        let w = hyphenated(a[i].workflow_id.value);
        let v = hyphenated(a[j].workflow_id.value);
        if w != v {
            text_order_antisymmetric(w, v);
        } else {
            hyphenated_is_injective(a[i].workflow_id.value, a[j].workflow_id.value);
            text_order_antisymmetric(
                hyphenated(a[i].run_id.value),
                hyphenated(a[j].run_id.value),
            );
            hyphenated_is_injective(a[i].run_id.value, a[j].run_id.value);
        }
    }
    ordered_rows_are_equal(a, b);
}

/// A request to a visibility store.
pub enum VisibilityCall {
    /// To put a row in its place.
    Record {
        /// The row.
        record: VisibilityView,
    },
    /// For a page of the listing.
    List {
        /// The filter.
        filter: ListWorkflowsFilterView,
    },
    /// For the number of rows.
    Count {
        /// The filter.
        filter: ListWorkflowsFilterView,
    },
}

/// Keeper of visibility rows: one per workflow execution. What an implementation holds is open
/// unless it says so.
pub trait VisibilityStore {
    /// The rows by workflow and run.
    open spec fn rows(&self) -> Map<(WorkflowId, RunId), VisibilityView> {
        arbitrary()
    }

    /// The requests that the backend fails, with their failures. A request that fails changes
    /// nothing.
    ///
    /// The contracts speak of a store that fails the same requests throughout. Of a backend that
    /// fails now and then they hold of each request on its own, and of several requests only as
    /// long as none of them begins or ceases to fail in between.
    open spec fn visibility_failures(&self) -> Map<VisibilityCall, StoreErrorView> {
        arbitrary()
    }

    /// Puts `record` in place of the row of the same workflow and run.
    fn record_visibility(&mut self, record: VisibilityRecord) -> (outcome: Result<(), StoreError>)
        ensures
            store_outcome(outcome) == (match failing(
                old(self).visibility_failures(),
                VisibilityCall::Record { record: record@ },
            ) {
                Some(error) => Err::<(), StoreErrorView>(error),
                None => Ok::<(), StoreErrorView>(()),
            }),
            final(self).rows() == (if outcome is Ok {
                old(self).rows().insert((record.workflow_id, record.run_id), record@)
            } else {
                old(self).rows()
            }),
            final(self).visibility_failures() == old(self).visibility_failures(),
            rows_keyed(final(self).rows()),
    ;

    /// The page of the ordered listing of selected rows that `filter` asks for.
    fn list_workflows(&self, filter: &ListWorkflowsFilter) -> (listed: Result<
        Vec<WorkflowSummary>,
        StoreError,
    >)
        ensures
            match failing(self.visibility_failures(), VisibilityCall::List { filter: filter@ }) {
                Some(error) => listed matches Err(e) && e@ == error,
                None => listed matches Ok(summaries) && exists|all: Seq<VisibilityView>| #[trigger]
                    listing(all, self.rows(), filter@) && summary_views(summaries@)
                        == filter@.page(all),
            },
            rows_keyed(self.rows()),
    ;

    /// The number of selected rows, at most `u64::MAX`.
    fn count_workflows(&self, filter: &ListWorkflowsFilter) -> (counted: Result<u64, StoreError>)
        ensures
            match failing(self.visibility_failures(), VisibilityCall::Count { filter: filter@ }) {
                Some(error) => counted matches Err(e) && e@ == error,
                None => counted matches Ok(count) && count == (if selected_rows(
                    self.rows(),
                    filter@,
                ).len() <= u64::MAX {
                    selected_rows(self.rows(), filter@).len()
                } else {
                    u64::MAX as nat
                }),
            },
    ;
}

/// The row's attribute of a name, if it has one.
pub open spec fn attribute_named(row: VisibilityView, name: Seq<char>) -> Option<
    SearchAttributeValueView,
> {
    if row.search_attributes.contains_key(name) {
        Some(row.search_attributes[name])
    } else {
        None
    }
}

/// Predicates compare the attribute that they name with their value, in the sense that they say: equal,
/// above or below it, both without the value itself, or a list that holds a keyword. A row without the
/// attribute satisfies none.
pub proof fn predicates_compare_the_named_attribute(
    row: VisibilityView,
    name: Seq<char>,
    value: SearchAttributeValueView,
    keyword: Seq<char>,
)
    ensures
        ({
            let equals = SearchAttributePredicateView::Equals { name, value }.matches(row);
            let above = SearchAttributePredicateView::GreaterThan { name, value }.matches(row);
            let below = SearchAttributePredicateView::LessThan { name, value }.matches(row);
            let holds = SearchAttributePredicateView::Contains { name, keyword }.matches(row);
            &&& attribute_named(row, name) is None ==> !equals && !above && !below && !holds
            &&& attribute_named(row, name) matches Some(stored) ==> {
                &&& stored == value && !(value is Float) ==> equals && !above && !below
                &&& equals && !(value is Float) ==> stored == value
                &&& equals ==> !above && !below
                &&& above ==> !below
                &&& stored matches SearchAttributeValueView::Int(x) ==> (
                value matches SearchAttributeValueView::Int(y) ==> (above <==> x > y) && (below
                    <==> x < y))
                &&& stored matches SearchAttributeValueView::Datetime(x) ==> (
                value matches SearchAttributeValueView::Datetime(y) ==> (above <==> later(x, y))
                    && (below <==> later(y, x)))
                &&& holds <==> (stored matches SearchAttributeValueView::KeywordList(keywords)
                    && keywords.contains(keyword))
            }
        }),
{
    if row.search_attributes.contains_key(name) {
        values_are_compared_by_type(row.search_attributes[name], value);
        values_are_compared_by_type(value, row.search_attributes[name]);
    }
}

/// An instant is later than another.
pub open spec fn later(a: Timestamp, b: Timestamp) -> bool {
    a.seconds() > b.seconds() || (a.seconds() == b.seconds() && a.subsec_nanos()
        > b.subsec_nanos())
}

/// A filter selects by all of its conditions at once, bounds on times included: exactly the rows of the
/// type and the status, started and closed no earlier than the lower bounds and no later than the upper
/// ones, that satisfy every predicate. A row that has not closed satisfies no bound on closing.
pub proof fn filters_select_rows_by_every_condition(
    filter: ListWorkflowsFilterView,
    row: VisibilityView,
)
    ensures
        filter.matches(row) <==> {
            &&& filter.workflow_type is None || filter.workflow_type == Some(row.workflow_type)
            &&& filter.status is None || filter.status == Some(row.status)
            &&& filter.started_after is None || !later(filter.started_after->Some_0, row.start_time)
            &&& filter.started_before is None || !later(
                row.start_time,
                filter.started_before->Some_0,
            )
            &&& filter.closed_after is None || (row.close_time is Some && !later(
                filter.closed_after->Some_0,
                row.close_time->Some_0,
            ))
            &&& filter.closed_before is None || (row.close_time is Some && !later(
                row.close_time->Some_0,
                filter.closed_before->Some_0,
            ))
            &&& forall|i: int|
                0 <= i < filter.search_attributes.len() ==> (
                #[trigger] filter.search_attributes[i]).matches(row)
        },
{
}

/// A listing holds exactly the rows that are kept and match the filter.
pub proof fn listings_hold_the_matching_rows(
    all: Seq<VisibilityView>,
    rows: Map<(WorkflowId, RunId), VisibilityView>,
    filter: ListWorkflowsFilterView,
    row: VisibilityView,
)
    requires
        listing(all, rows, filter),
        rows_keyed(rows),
    ensures
        all.contains(row) <==> rows.contains_key((row.workflow_id, row.run_id)) && rows[(
            row.workflow_id,
            row.run_id,
        )] == row && filter.matches(row),
        all.len() == selected_rows(rows, filter).len(),
{
    let selected = selected_rows(rows, filter);
    let key = (row.workflow_id, row.run_id);
    assert(rows_keyed(selected));
    let keys = choose|keys: Seq<(WorkflowId, RunId)>| #[trigger] enumerates(keys, all, selected);
    if all.contains(row) {
        let place = choose|place: int| 0 <= place < all.len() && all[place] == row;
        listed_row_is_selected(all, selected, place);
    }
    if rows.contains_key(key) && rows[key] == row && filter.matches(row) {
        assert(selected.contains_key(key));
        assert(keys.contains(key));
        let place = choose|place: int| 0 <= place < keys.len() && keys[place] == key;
        assert(all[place] == row);
    }
    listing_length(all, selected);
}

/// A listing goes from the earliest start to the latest, and by the texts of the workflow and of the run
/// among equal starts.
pub proof fn listings_go_by_start(all: Seq<VisibilityView>, i: int, j: int)
    requires
        rows_in_order(all),
        0 <= i < j < all.len(),
    ensures
        !later(all[i].start_time, all[j].start_time),
        all[i].start_time == all[j].start_time ==> ({
            let a = hyphenated(all[i].workflow_id.value);
            let b = hyphenated(all[j].workflow_id.value);
            &&& text_at_most(a, b)
            &&& a == b ==> text_at_most(
                hyphenated(all[i].run_id.value),
                hyphenated(all[j].run_id.value),
            )
        }),
{
    text_order_total(
        hyphenated(all[i].workflow_id.value),
        hyphenated(all[i].workflow_id.value),
    );
    timestamp_order(all[i].start_time, all[j].start_time, all[j].start_time);
    assert(all[i].listed_before(all[j]));
}

/// A page is a stretch of the listing: it begins behind the rows to skip and holds the next ones in
/// their order, as many as there are up to the limit.
pub proof fn pages_are_stretches_of_the_listing(
    filter: ListWorkflowsFilterView,
    all: Seq<VisibilityView>,
)
    ensures
        ({
            let skipped = if filter.offset is Some {
                filter.offset->Some_0 as int
            } else {
                0
            };
            let rest = if skipped < all.len() {
                all.len() - skipped
            } else {
                0
            };
            &&& filter.limit is None ==> filter.page(all).len() == rest
            &&& filter.limit matches Some(limit) ==> filter.page(all).len() == (if limit < rest {
                limit as int
            } else {
                rest
            })
            &&& forall|k: int|
                0 <= k < filter.page(all).len() ==> #[trigger] filter.page(all)[k] == all[skipped
                    + k]
        }),
{
}

/// Pages that follow each other make up the listing: skipping a page's worth and then taking one goes on
/// where the page before ended.
pub proof fn pages_follow_each_other(
    first: ListWorkflowsFilterView,
    second: ListWorkflowsFilterView,
    all: Seq<VisibilityView>,
    offset: u32,
    size: u32,
    more: u32,
)
    requires
        offset + size <= u32::MAX,
        size + more <= u32::MAX,
        first.offset == Some(offset),
        first.limit == Some(size),
        second.offset == Some((offset + size) as u32),
        second.limit == Some(more),
    ensures
        first.page(all) + second.page(all) == (ListWorkflowsFilterView {
            limit: Some((size + more) as u32),
            ..first
        }).page(all),
{
    let whole = ListWorkflowsFilterView { limit: Some((size + more) as u32), ..first };
    assert(first.page(all) + second.page(all) =~= whole.page(all));
}

/// The summary of a row tells what the row holds.
pub proof fn summaries_tell_their_row(record: VisibilityRecord)
    ensures
        ({
            let summary = <WorkflowSummary as vstd::std_specs::convert::FromSpec<
                VisibilityRecord,
            >>::from_spec(record);
            &&& summary.workflow_id == record.workflow_id
            &&& summary.run_id == record.run_id
            &&& summary.workflow_type == record.workflow_type
            &&& summary.status == record.status
            &&& summary.start_time == record.start_time
            &&& summary.close_time == record.close_time
            &&& summary.search_attributes == record.search_attributes
            &&& summary@ == record@
        }),
{
}

} // verus!
