//! Checks of what a store returned.

use vstd::prelude::*;
use vstd::relations::{sorted_by, total_ordering};
use vstd::seq_lib::lemma_sorted_unique;
use vstd::string::*;

use crate::error::{store_outcome, StoreError, StoreErrorView};
use crate::event::{event_views, same_events, Event};
use crate::ids::{hyphenated, hyphenated_is_injective, timer_text_is_injective, WorkflowId};
use crate::order::{in_order, mapped_elements_are_the_same, sorted, Ranked};
use crate::projection::{RunSummary, WorkflowSummary};
use crate::store::{timer_views, TimerEntry, TimerEntryView};
use crate::text::{
    decimal, decimal_text, joined, text_at_most, text_order_antisymmetric, text_order_total,
    text_order_transitive,
};
use crate::timestamp::timestamp_order;

verus! {

/// The failure of a check.
pub open spec fn contract_failure(message: Seq<char>) -> StoreErrorView {
    StoreErrorView::Backend("event store conformance failure: "@ + message)
}

/// The failure of a check.
pub fn contract_error(message: &str) -> (error: StoreError)
    ensures
        error@ == contract_failure(message@),
{
    StoreError::Backend(joined("event store conformance failure: ", message))
}

/// The outcome of a check: it passes, or fails with the message.
pub open spec fn checked(passes: bool, message: Seq<char>) -> Result<(), StoreErrorView> {
    if passes {
        Ok(())
    } else {
        Err(contract_failure(message))
    }
}

/// A message with the two values of a comparison.
pub open spec fn with_values(message: Seq<char>, expected: Seq<char>, actual: Seq<char>) -> Seq<
    char,
> {
    message + "\n  expected: "@ + expected + "\n  actual: "@ + actual
}

/// A comparison came out as expected; else the two values, in these texts, stand behind the message.
pub fn expect_values(holds: bool, message: &str, expected: &str, actual: &str) -> (check: Result<
    (),
    StoreError,
>)
    ensures
        store_outcome(check) == checked(holds, with_values(message@, expected@, actual@)),
{
    if holds {
        Ok(())
    } else {
        let mut text = joined(message, "\n  expected: ");
        text.append(expected);
        text.append("\n  actual: ");
        text.append(actual);
        Err(contract_error(text.as_str()))
    }
}

/// The check of a count.
pub open spec fn checked_count(actual: nat, expected: nat, message: Seq<char>) -> Result<
    (),
    StoreErrorView,
> {
    checked(actual == expected, with_values(message, decimal(expected), decimal(actual)))
}

/// There are as many as expected.
pub fn expect_count(actual: usize, expected: usize, message: &str) -> (check: Result<
    (),
    StoreError,
>)
    ensures
        store_outcome(check) == checked_count(actual as nat, expected as nat, message@),
{
    let wanted = decimal_text(expected as u128);
    let found = decimal_text(actual as u128);
    expect_values(actual == expected, message, wanted.as_str(), found.as_str())
}

/// Numbers with commas between them.
pub open spec fn comma_separated(numbers: Seq<u64>) -> Seq<char>
    decreases numbers.len(),
{
    if numbers.len() == 0 {
        Seq::empty()
    } else if numbers.len() == 1 {
        decimal(numbers[0] as nat)
    } else {
        comma_separated(numbers.drop_last()) + ", "@ + decimal(numbers.last() as nat)
    }
}

/// Text of a list of numbers.
pub open spec fn number_list(numbers: Seq<u64>) -> Seq<char> {
    "["@ + comma_separated(numbers) + "]"@
}

fn number_list_text(numbers: &Vec<u64>) -> (text: String)
    ensures
        text@ == number_list(numbers@),
{
    let mut items = "".to_owned();
    let mut i: usize = 0;
    proof {
        reveal_strlit("");
        assert(items@ =~= comma_separated(numbers@.take(0)));
    }
    while i < numbers.len()
        invariant
            i <= numbers.len(),
            items@ == comma_separated(numbers@.take(i as int)),
        decreases numbers.len() - i,
    {
        proof {
            assert(numbers@.take(i + 1).drop_last() =~= numbers@.take(i as int));
            assert(numbers@.take(i + 1).last() == numbers@[i as int]);
        }
        let number = decimal_text(numbers[i] as u128);
        if i == 0 {
            items = number;
        } else {
            items.append(", ");
            items.append(number.as_str());
        }
        i += 1;
    }
    assert(numbers@.take(i as int) =~= numbers@);
    let mut text = joined("[", items.as_str());
    text.append("]");
    text
}

/// Nothing was returned.
pub fn expect_empty<T>(items: &Vec<T>, message: &str) -> (check: Result<(), StoreError>)
    ensures
        store_outcome(check) == checked(
            items@.len() == 0,
            message@ + " (got "@ + decimal(items@.len()) + " items)"@,
        ),
{
    if items.len() == 0 {
        Ok(())
    } else {
        let mut text = joined(message, " (got ");
        text.append(decimal_text(items.len() as u128).as_str());
        text.append(" items)");
        Err(contract_error(text.as_str()))
    }
}

/// A comparison came out as expected. The two values are left out of the message: it is for values
/// whose only text is the one that `derive(Debug)` writes.
pub fn expect(holds: bool, message: &str) -> (check: Result<(), StoreError>)
    ensures
        store_outcome(check) == checked(holds, message@),
{
    if holds {
        Ok(())
    } else {
        Err(contract_error(message))
    }
}

/// The events are those that were expected, in order.
pub fn expect_events(actual: &Vec<Event>, expected: &Vec<Event>, message: &str) -> (check: Result<
    (),
    StoreError,
>)
    ensures
        store_outcome(check) == checked(
            event_views(actual@) == event_views(expected@),
            message@,
        ),
{
    expect(same_events(actual.as_slice(), expected.as_slice()), message)
}

/// The numbers are those that were expected, in order.
pub fn expect_numbers(actual: &Vec<u64>, expected: &Vec<u64>, message: &str) -> (check: Result<
    (),
    StoreError,
>)
    ensures
        store_outcome(check) == checked(
            actual@ == expected@,
            with_values(message@, number_list(expected@), number_list(actual@)),
        ),
{
    let mut same = actual.len() == expected.len();
    let mut i: usize = 0;
    while same && i < actual.len()
        invariant
            i <= actual.len(),
            same ==> actual@.len() == expected@.len() && actual@.take(i as int)
                == expected@.take(i as int),
            !same ==> actual@ != expected@,
        decreases actual.len() - i + (if same {
            1int
        } else {
            0int
        }),
    {
        if actual[i] == expected[i] {
            proof {
                assert(actual@.take(i + 1) =~= actual@.take(i as int).push(actual@[i as int]));
                assert(expected@.take(i + 1) =~= expected@.take(i as int).push(
                    expected@[i as int],
                ));
            }
            i += 1;
        } else {
            same = false;
        }
    }
    proof {
        if same {
            assert(actual@.take(i as int) =~= actual@);
            assert(expected@.take(i as int) =~= expected@);
        }
    }
    let wanted = number_list_text(expected);
    let found = number_list_text(actual);
    expect_values(same, message, wanted.as_str(), found.as_str())
}

/// The runs are those that were expected, in order.
pub fn expect_runs(
    actual: &Vec<RunSummary>,
    expected: &Vec<RunSummary>,
    message: &str,
) -> (check: Result<(), StoreError>)
    ensures
        store_outcome(check) == checked(actual@ == expected@, message@),
{
    let mut same = actual.len() == expected.len();
    let mut i: usize = 0;
    while same && i < actual.len()
        invariant
            i <= actual.len(),
            same ==> actual@.len() == expected@.len() && actual@.take(i as int)
                == expected@.take(i as int),
            !same ==> actual@ != expected@,
        decreases actual.len() - i + (if same {
            1int
        } else {
            0int
        }),
    {
        if actual[i] == expected[i] {
            proof {
                assert(actual@.take(i + 1) =~= actual@.take(i as int).push(actual@[i as int]));
                assert(expected@.take(i + 1) =~= expected@.take(i as int).push(
                    expected@[i as int],
                ));
            }
            i += 1;
        } else {
            same = false;
        }
    }
    proof {
        if same {
            assert(actual@.take(i as int) =~= actual@);
            assert(expected@.take(i as int) =~= expected@);
        }
    }
    expect(same, message)
}

/// Workflows in the order of their texts.
pub open spec fn text_order() -> spec_fn(WorkflowId, WorkflowId) -> bool {
    |a: WorkflowId, b: WorkflowId| text_at_most(hyphenated(a.value), hyphenated(b.value))
}

proof fn text_order_is_total()
    ensures
        total_ordering(text_order()),
{
    let order = text_order();
    assert forall|x: WorkflowId| #[trigger] order(x, x) by {
        text_order_total(hyphenated(x.value), hyphenated(x.value));
    }
    assert forall|x: WorkflowId, y: WorkflowId| #[trigger] order(x, y) && #[trigger]
        order(y, x) implies x == y by {
        text_order_antisymmetric(hyphenated(x.value), hyphenated(y.value));
        hyphenated_is_injective(x.value, y.value);
    }
    assert forall|x: WorkflowId, y: WorkflowId, z: WorkflowId| #[trigger]
        order(x, y) && #[trigger] order(y, z) implies order(x, z) by {
        text_order_transitive(hyphenated(x.value), hyphenated(y.value), hyphenated(z.value));
    }
    assert forall|x: WorkflowId, y: WorkflowId| #[trigger] order(x, y) || #[trigger]
        order(y, x) by {
        text_order_total(hyphenated(x.value), hyphenated(y.value));
    }
}

fn same_ids(left: &Vec<WorkflowId>, right: &Vec<WorkflowId>) -> (same: bool)
    ensures
        same == (left@ == right@),
{
    if left.len() != right.len() {
        return false;
    }
    let mut i: usize = 0;
    while i < left.len()
        invariant
            i <= left.len(),
            left.len() == right.len(),
            forall|j: int| 0 <= j < i ==> left@[j] == right@[j],
        decreases left.len() - i,
    {
        if left[i] != right[i] {
            return false;
        }
        i += 1;
    }
    assert(left@ =~= right@);
    true
}

fn copied_ids(ids: &Vec<WorkflowId>) -> (copy: Vec<WorkflowId>)
    ensures
        copy@ == ids@,
{
    let mut copy: Vec<WorkflowId> = Vec::new();
    let mut i: usize = 0;
    while i < ids.len()
        invariant
            i <= ids.len(),
            copy@ == ids@.take(i as int),
        decreases ids.len() - i,
    {
        copy.push(ids[i]);
        assert(ids@.take(i + 1) =~= ids@.take(i as int).push(ids@[i as int]));
        i += 1;
    }
    assert(ids@.take(i as int) =~= ids@);
    copy
}

/// The workflows are those that were expected, in whatever order.
pub fn expect_contains_exactly(
    actual: Vec<WorkflowId>,
    expected: &Vec<WorkflowId>,
    message: &str,
) -> (check: Result<(), StoreError>)
    ensures
        store_outcome(check) == checked(
            actual@.to_multiset() == expected@.to_multiset(),
            message@,
        ),
{
    let left = sorted(actual);
    let right = sorted(copied_ids(expected));
    proof {
        text_order_is_total();
        if left@.to_multiset() == right@.to_multiset() {
            assert(sorted_by(left@, text_order())) by {
                assert forall|i: int, j: int| 0 <= i < j < left@.len() implies #[trigger]
                    text_order()(left@[i], left@[j]) by {
                    assert(left@[i].at_most(&left@[j]));
                }
            }
            assert(sorted_by(right@, text_order())) by {
                assert forall|i: int, j: int| 0 <= i < j < right@.len() implies #[trigger]
                    text_order()(right@[i], right@[j]) by {
                    assert(right@[i].at_most(&right@[j]));
                }
            }
            lemma_sorted_unique(left@, right@, text_order());
        }
    }
    expect(same_ids(&left, &right), message)
}

/// Workflows of a list of summaries.
pub open spec fn summary_workflows(summaries: Seq<WorkflowSummary>) -> Seq<WorkflowId> {
    summaries.map_values(|summary: WorkflowSummary| summary@.workflow_id)
}

/// The summaries are of the workflows that were expected, in whatever order.
pub fn expect_summary_workflows(
    actual: Vec<WorkflowSummary>,
    expected: &Vec<WorkflowId>,
    message: &str,
) -> (check: Result<(), StoreError>)
    ensures
        store_outcome(check) == checked(
            summary_workflows(actual@).to_multiset() == expected@.to_multiset(),
            message@,
        ),
{
    let mut ids: Vec<WorkflowId> = Vec::new();
    let mut i: usize = 0;
    while i < actual.len()
        invariant
            i <= actual.len(),
            ids@ == summary_workflows(actual@).take(i as int),
        decreases actual.len() - i,
    {
        ids.push(actual[i].workflow_id);
        proof {
            let all = summary_workflows(actual@);
            assert(all.take(i + 1) =~= all.take(i as int).push(all[i as int]));
        }
        i += 1;
    }
    proof {
        let all = summary_workflows(actual@);
        assert(all.take(i as int) =~= all);
    }
    expect_contains_exactly(ids, expected, message)
}

/// Timers in the order in which they are listed.
pub open spec fn timer_entry_order() -> spec_fn(TimerEntryView, TimerEntryView) -> bool {
    |a: TimerEntryView, b: TimerEntryView| a.listed_before(b)
}

proof fn timer_order_is_total()
    ensures
        total_ordering(timer_entry_order()),
{
    let order = timer_entry_order();
    assert forall|x: TimerEntryView| #[trigger] order(x, x) by {
        text_order_total(x.timer_id.text(), x.timer_id.text());
    }
    assert forall|x: TimerEntryView, y: TimerEntryView| #[trigger] order(x, y) && #[trigger]
        order(y, x) implies x == y by {
        timestamp_order(x.fire_at, y.fire_at, y.fire_at);
        let a = hyphenated(x.workflow_id.value);
        let b = hyphenated(y.workflow_id.value);
        if a != b {
            text_order_antisymmetric(a, b);
        } else {
            hyphenated_is_injective(x.workflow_id.value, y.workflow_id.value);
            text_order_antisymmetric(x.timer_id.text(), y.timer_id.text());
            timer_text_is_injective(x.timer_id, y.timer_id);
        }
    }
    assert forall|x: TimerEntryView, y: TimerEntryView, z: TimerEntryView| #[trigger]
        order(x, y) && #[trigger] order(y, z) implies order(x, z) by {
        timestamp_order(x.fire_at, y.fire_at, z.fire_at);
        timestamp_order(y.fire_at, z.fire_at, x.fire_at);
        timestamp_order(z.fire_at, x.fire_at, y.fire_at);
        let a = hyphenated(x.workflow_id.value);
        let b = hyphenated(y.workflow_id.value);
        let c = hyphenated(z.workflow_id.value);
        if x.fire_at == y.fire_at && y.fire_at == z.fire_at {
            if a == b && b == c {
                text_order_transitive(x.timer_id.text(), y.timer_id.text(), z.timer_id.text());
            } else if a != b && b != c {
                text_order_transitive(a, b, c);
                if a == c {
                    text_order_antisymmetric(a, b);
                }
            }
        }
    }
    assert forall|x: TimerEntryView, y: TimerEntryView| #[trigger] order(x, y) || #[trigger]
        order(y, x) by {
        timestamp_order(x.fire_at, y.fire_at, y.fire_at);
        text_order_total(hyphenated(x.workflow_id.value), hyphenated(y.workflow_id.value));
        text_order_total(x.timer_id.text(), y.timer_id.text());
    }
}

proof fn ordered_timer_views(entries: Seq<TimerEntry>)
    requires
        in_order(entries),
    ensures
        sorted_by(timer_views(entries), timer_entry_order()),
{
    assert forall|i: int, j: int| 0 <= i < j < entries.len() implies #[trigger]
        timer_entry_order()(timer_views(entries)[i], timer_views(entries)[j]) by {
        assert(entries[i].at_most(&entries[j]));
    }
}

fn same_timers(left: &Vec<TimerEntry>, right: &Vec<TimerEntry>) -> (same: bool)
    ensures
        same == (timer_views(left@) == timer_views(right@)),
{
    if left.len() != right.len() {
        assert(timer_views(left@).len() != timer_views(right@).len());
        return false;
    }
    let mut i: usize = 0;
    while i < left.len()
        invariant
            i <= left.len(),
            left.len() == right.len(),
            forall|j: int| 0 <= j < i ==> timer_views(left@)[j] == timer_views(right@)[j],
        decreases left.len() - i,
    {
        if !(left[i].workflow_id == right[i].workflow_id && left[i].timer_id.same(
            &right[i].timer_id,
        ) && left[i].fire_at == right[i].fire_at) {
            assert(timer_views(left@)[i as int] != timer_views(right@)[i as int]);
            return false;
        }
        i += 1;
    }
    assert(timer_views(left@) =~= timer_views(right@));
    true
}

fn copied_timers(entries: &Vec<TimerEntry>) -> (copy: Vec<TimerEntry>)
    ensures
        timer_views(copy@) == timer_views(entries@),
{
    let mut copy: Vec<TimerEntry> = Vec::new();
    let mut i: usize = 0;
    while i < entries.len()
        invariant
            i <= entries.len(),
            copy@.len() == i,
            forall|j: int| 0 <= j < i ==> (#[trigger] copy@[j])@ == entries@[j]@,
        decreases entries.len() - i,
    {
        copy.push(entries[i].clone());
        i += 1;
    }
    assert(timer_views(copy@) =~= timer_views(entries@));
    copy
}

/// The timers are those that were expected, in whatever order.
pub fn expect_timer_entries(
    actual: Vec<TimerEntry>,
    expected: &Vec<TimerEntry>,
    message: &str,
) -> (check: Result<(), StoreError>)
    ensures
        store_outcome(check) == checked(
            timer_views(actual@).to_multiset() == timer_views(expected@).to_multiset(),
            message@,
        ),
{
    let copy = copied_timers(expected);
    let left = sorted(actual);
    let right = sorted(copy);
    proof {
        let view = |entry: TimerEntry| entry@;
        mapped_elements_are_the_same(left@, actual@, view);
        mapped_elements_are_the_same(right@, copy@, view);
        assert(left@.map_values(view) =~= timer_views(left@));
        assert(actual@.map_values(view) =~= timer_views(actual@));
        assert(right@.map_values(view) =~= timer_views(right@));
        assert(copy@.map_values(view) =~= timer_views(copy@));
        timer_order_is_total();
        ordered_timer_views(left@);
        ordered_timer_views(right@);
        if timer_views(left@).to_multiset() == timer_views(right@).to_multiset() {
            lemma_sorted_unique(timer_views(left@), timer_views(right@), timer_entry_order());
        }
    }
    expect(same_timers(&left, &right), message)
}

/// A check passes exactly when what it asks for holds, and otherwise fails with its message, marked as a
/// failure of the contract.
pub proof fn checks_pass_exactly_when_they_hold(
    passes: bool,
    actual: nat,
    expected: nat,
    message: Seq<char>,
)
    ensures
        checked(passes, message) is Ok <==> passes,
        !passes ==> checked(passes, message) == Err::<(), StoreErrorView>(
            StoreErrorView::Backend("event store conformance failure: "@ + message),
        ),
        checked_count(actual, expected, message) is Ok <==> actual == expected,
        actual != expected ==> checked_count(actual, expected, message) == Err::<
            (),
            StoreErrorView,
        >(
            StoreErrorView::Backend(
                "event store conformance failure: "@ + (message + "\n  expected: "@ + decimal(expected)
                    + "\n  actual: "@ + decimal(actual)),
            ),
        ),
{
}

/// A list of numbers is told in brackets, with its numbers in decimal and in their order.
pub proof fn numbers_are_told_in_their_order(numbers: Seq<u64>, n: u64)
    ensures
        number_list(Seq::empty()) == "["@ + Seq::<char>::empty() + "]"@,
        number_list(seq![n]) == "["@ + decimal(n as nat) + "]"@,
        number_list(numbers) == "["@ + comma_separated(numbers) + "]"@,
        numbers.len() > 0 ==> comma_separated(numbers.push(n)) == comma_separated(numbers) + ", "@
            + decimal(n as nat),
{
    assert(numbers.push(n).drop_last() =~= numbers);
    assert(seq![n][0] == n);
}

} // verus!
