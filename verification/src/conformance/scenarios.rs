//! The scenarios of the suite.

use vstd::prelude::*;
use vstd::seq_lib::*;
use vstd::string::*;

use crate::conformance::expect::{
    checked, checked_count, contract_failure, expect_count, expect_events,
};
use crate::conformance::fixtures::{
    activity_scheduled, completed, continued, failed, following, instant, instants_are_ordered,
    numbered, recorded_at, run_id, scheduled, signal_received, signalled, started, timed,
    timer_started, workflow_completed, workflow_completed_at, workflow_continued_as_new,
    workflow_continued_as_new_at, workflow_continued_as_new_with_parent, workflow_failed_at,
    workflow_started, workflow_started_at, workflow_started_with_run, IdSource,
};
use crate::conformance::script::{
    after_step, both, check_views, counted_up, followed, judged, listed_alike, listing_of,
    modelled, part_holds, play, played, scripted, sequences, step_views, summary_check,
    summary_steps_pass_on_their_summaries, verdict, workflows_of, Step, StepView, SummaryCheck,
    SummaryCheckView, SummaryPart, SummaryPartView,
};
use crate::conformance::trial::{
    after_append, append_reply, empty_world, healthy, one_after_the_other, Exchange,
    StoreUnderTest, Trial, World,
};
use crate::error::{store_outcome, StoreError, StoreErrorView};
use crate::event::{clone_events, event_views, Event, EventView};
use crate::ids::{RunId, TimerId, TimerIdView, WorkflowId};
use crate::order::{enumerates, lists, mapped_elements_are_the_same, same_elements_contain};
use crate::projection::{
    is_terminal, lifecycle_status, run_chain, status_of, summary_of, RunSummary, WorkflowFilter,
    WorkflowFilterView, WorkflowStatus, WorkflowSummaryView,
};
use crate::store::{
    active_workflows, append_rule, appended,
    appended_events_are_read_back, contiguous, due_timers, failing, history_in,
    numbered_history_head, selected_summaries, timer_views, StoreCall, TimerEntry,
    TimerEntryView,
};
use crate::text::{decimal, decimal_text, joined};
use crate::timestamp::whole_second_parts;

verus! {

/// The filter without conditions.
pub open spec fn unfiltered() -> WorkflowFilterView {
    WorkflowFilterView {
        workflow_type: None,
        status: None,
        started_after: None,
        started_before: None,
        parent: None,
    }
}

/// A start that is recorded, and named, by its sequence number.
pub open spec fn plain_start(seq: u64, id: WorkflowId, workflow_type: Seq<char>) -> EventView {
    started(seq, id, workflow_type, RunId { value: seq as u128 }, None, seq as int)
}

/// The script of [`append_and_read_history_round_trip`].
pub open spec fn round_trip_script(next: u64) -> Seq<StepView> {
    let id = numbered(next);
    let events = seq![
        plain_start(1, id, "checkout"@),
        scheduled(2, id, "reserve-inventory"@),
        timed(3, id, TimerIdView::Anonymous(3), instant(30)),
        signalled(4, id, "payment-authorized"@),
    ];
    seq![
        StepView::NoHistory {
            workflow_id: id,
            message: "unknown workflow history should be empty"@,
        },
        StepView::Append { workflow_id: id, events, expected_seq: 0 },
        StepView::History {
            workflow_id: id,
            events,
            message: "read_history should round-trip appended events in ascending sequence order"@,
        },
    ]
}

/// Appended events are read back in order.
pub fn append_and_read_history_round_trip<S: StoreUnderTest>(
    trial: &mut Trial<S>,
    ids: &mut IdSource,
) -> (outcome: Result<(), StoreError>)
    ensures
        played(round_trip_script(old(ids).next), *old(trial), *final(trial), outcome),
        final(ids).next == following(old(ids).next),
{
    let ghost script = round_trip_script(ids.next);
    let workflow_id = ids.workflow_id();
    let events = vec![
        workflow_started(1, &workflow_id, "checkout")?,
        activity_scheduled(2, &workflow_id, "reserve-inventory")?,
        timer_started(3, &workflow_id, TimerId::anonymous(3), recorded_at(30)?)?,
        signal_received(4, &workflow_id, "payment-authorized")?,
    ];
    assert(event_views(events@) =~= script[1]->Append_events);
    let steps = vec![
        Step::NoHistory { workflow_id, message: "unknown workflow history should be empty" },
        Step::Append { workflow_id, events: clone_events(events.as_slice()), expected_seq: 0 },
        Step::History {
            workflow_id,
            events,
            message: "read_history should round-trip appended events in ascending sequence order",
        },
    ];
    assert(step_views(steps@) =~= script);
    play(&steps, trial)
}

/// The script of [`multi_batch_append_advances_sequence`].
pub open spec fn batches_script(next: u64) -> Seq<StepView> {
    let id = numbered(next);
    let first = seq![plain_start(1, id, "checkout"@)];
    let second = seq![scheduled(2, id, "charge-card"@), completed(3, id, 3)];
    seq![
        StepView::Append { workflow_id: id, events: first, expected_seq: 0 },
        StepView::Append { workflow_id: id, events: second, expected_seq: 1 },
        StepView::History {
            workflow_id: id,
            events: first + second,
            message: "append should accept the current head as the next expected sequence"@,
        },
    ]
}

/// The head of a history is the expected sequence of the next batch.
pub fn multi_batch_append_advances_sequence<S: StoreUnderTest>(
    trial: &mut Trial<S>,
    ids: &mut IdSource,
) -> (outcome: Result<(), StoreError>)
    ensures
        played(batches_script(old(ids).next), *old(trial), *final(trial), outcome),
        final(ids).next == following(old(ids).next),
{
    let ghost script = batches_script(ids.next);
    let workflow_id = ids.workflow_id();
    let first = vec![workflow_started(1, &workflow_id, "checkout")?];
    let second = vec![
        activity_scheduled(2, &workflow_id, "charge-card")?,
        workflow_completed(3, &workflow_id)?,
    ];
    assert(event_views(first@) =~= script[0]->Append_events);
    assert(event_views(second@) =~= script[1]->Append_events);
    let mut expected = clone_events(first.as_slice());
    let mut tail = clone_events(second.as_slice());
    let ghost parts = (expected@, tail@);
    expected.append(&mut tail);
    assert(event_views(expected@) =~= event_views(parts.0) + event_views(parts.1));
    let steps = vec![
        Step::Append { workflow_id, events: first, expected_seq: 0 },
        Step::Append { workflow_id, events: second, expected_seq: 1 },
        Step::History {
            workflow_id,
            events: expected,
            message: "append should accept the current head as the next expected sequence",
        },
    ];
    assert(step_views(steps@) =~= script);
    play(&steps, trial)
}

/// The script of [`stale_expected_sequence_writes_nothing`].
pub open spec fn stale_script(next: u64) -> Seq<StepView> {
    let id = numbered(next);
    let first = seq![plain_start(1, id, "checkout"@)];
    seq![
        StepView::Append { workflow_id: id, events: first, expected_seq: 0 },
        StepView::Conflict {
            workflow_id: id,
            events: seq![completed(2, id, 2)],
            expected_seq: 0,
            found: 1,
            message: "stale expected_seq should report the observed workflow head"@,
        },
        StepView::History {
            workflow_id: id,
            events: first,
            message: "SequenceConflict should leave history unchanged with no partial write"@,
        },
    ]
}

/// A stale expected sequence is answered with the head, and writes nothing.
pub fn stale_expected_sequence_writes_nothing<S: StoreUnderTest>(
    trial: &mut Trial<S>,
    ids: &mut IdSource,
) -> (outcome: Result<(), StoreError>)
    ensures
        played(stale_script(old(ids).next), *old(trial), *final(trial), outcome),
        final(ids).next == following(old(ids).next),
{
    let ghost script = stale_script(ids.next);
    let workflow_id = ids.workflow_id();
    let first = vec![workflow_started(1, &workflow_id, "checkout")?];
    let rejected = vec![workflow_completed(2, &workflow_id)?];
    assert(event_views(first@) =~= script[0]->Append_events);
    assert(event_views(rejected@) =~= script[1]->Conflict_events);
    let steps = vec![
        Step::Append { workflow_id, events: clone_events(first.as_slice()), expected_seq: 0 },
        Step::Conflict {
            workflow_id,
            events: rejected,
            expected_seq: 0,
            found: 1,
            message: "stale expected_seq should report the observed workflow head",
        },
        Step::History {
            workflow_id,
            events: first,
            message: "SequenceConflict should leave history unchanged with no partial write",
        },
    ];
    assert(step_views(steps@) =~= script);
    play(&steps, trial)
}

/// One of the batches that are appended at the same time.
pub open spec fn race_batch(next: u64, workflow_type: Seq<char>) -> Seq<EventView> {
    seq![plain_start(1, numbered(next), workflow_type)]
}

/// What is said where not exactly one of the batches was accepted.
pub open spec fn one_winner_message() -> Seq<char> {
    "concurrent appends with the same expected_seq should have exactly one winner"@
}

/// What is said where the history is not that of the winner.
pub open spec fn winner_message() -> Seq<char> {
    "history should contain only the winning concurrent append batch"@
}

/// How many of two there are.
pub open spec fn how_many(first: bool, second: bool) -> nat {
    (if first {
        1nat
    } else {
        0nat
    }) + (if second {
        1nat
    } else {
        0nat
    })
}

/// The check of the two answers: one batch was accepted, and the other refused with the winner's
/// head.
pub open spec fn race_check(
    replies: (Result<(), StoreErrorView>, Result<(), StoreErrorView>),
) -> Result<(), StoreErrorView> {
    let conflict = Err::<(), StoreErrorView>(
        StoreErrorView::SequenceConflict { expected: 0, found: 1 },
    );
    both(
        checked_count(how_many(replies.0 is Ok, replies.1 is Ok), 1, one_winner_message()),
        checked_count(
            how_many(replies.0 == conflict, replies.1 == conflict),
            1,
            "losing concurrent append should return SequenceConflict for the winning head"@,
        ),
    )
}

fn count_of_two(first: bool, second: bool) -> (count: usize)
    ensures
        count == how_many(first, second),
{
    if first && second {
        2
    } else if first || second {
        1
    } else {
        0
    }
}

/// Two batches were appended at the same time and the history was read, up to the first answer that
/// is not taken, which decides the outcome.
pub open spec fn raced(
    next: u64,
    exchanges: Seq<Exchange>,
    outcome: Result<(), StoreErrorView>,
) -> bool {
    &&& exchanges.len() > 0
    &&& exchanges[0] matches Exchange::AppendBoth {
        workflow_id,
        first,
        second,
        expected_seq,
        replies,
    }
    &&& workflow_id == numbered(next)
    &&& first == race_batch(next, "checkout"@)
    &&& second == race_batch(next, "billing"@)
    &&& expected_seq == 0
    &&& match race_check(replies) {
        Err(error) => exchanges.len() == 1 && outcome == Err::<(), StoreErrorView>(error),
        Ok(()) => {
            &&& exchanges.len() == 2
            &&& exchanges[1] matches Exchange::ReadHistory { workflow_id: read, reply }
            &&& read == numbered(next)
            &&& outcome == judged(
                reply,
                |history: Seq<EventView>|
                    checked(
                        history == (if replies.0 is Ok {
                            first
                        } else {
                            second
                        }),
                        winner_message(),
                    ),
            )
        },
    }
}

/// What comes of two appends at the same time with a store that keeps its contract. Where it would
/// take either batch, it takes one and refuses the other with its head.
pub open spec fn race_outcome(next: u64, world: World) -> Result<(), StoreErrorView> {
    let id = numbered(next);
    let first = append_reply(world, id, race_batch(next, "checkout"@), 0);
    let second = append_reply(world, id, race_batch(next, "billing"@), 0);
    let replies = if first is Ok && second is Ok {
        (first, Err(StoreErrorView::SequenceConflict { expected: 0, found: 1 }))
    } else {
        (first, second)
    };
    match race_check(replies) {
        Err(error) => Err(error),
        Ok(()) => match failing(world.failures, StoreCall::ReadHistory { workflow_id: id }) {
            Some(error) => Err(error),
            None => checked(history_in(world.histories, id).len() == 0, winner_message()),
        },
    }
}

/// With a store that keeps its contract and would take either batch, the one that comes first wins
/// and the other is refused with its head. Otherwise both are answered as if each came alone.
proof fn one_of_two_wins(
    before: World,
    after: World,
    id: WorkflowId,
    one: Seq<EventView>,
    other: Seq<EventView>,
    replies: (Result<(), StoreErrorView>, Result<(), StoreErrorView>),
)
    requires
        one.len() == 1,
        other.len() == 1,
        one[0].envelope.seq == 1,
        other[0].envelope.seq == 1,
        one_after_the_other(before, id, one, other, 0, replies, after),
    ensures
        after.failures == before.failures,
        ({
            let alone = (append_reply(before, id, one, 0), append_reply(before, id, other, 0));
            &&& replies == (if alone.0 is Ok && alone.1 is Ok {
                (
                    alone.0,
                    Err::<(), StoreErrorView>(
                        StoreErrorView::SequenceConflict { expected: 0, found: 1 },
                    ),
                )
            } else {
                alone
            })
            &&& replies.0 is Ok ==> history_in(after.histories, id) == history_in(
                before.histories,
                id,
            ) + one
            &&& replies.1 is Ok ==> history_in(after.histories, id) == history_in(
                before.histories,
                id,
            ) + other
        }),
{
    let history = history_in(before.histories, id);
    assert(contiguous(one, 0));
    assert(contiguous(other, 0));
    appended_events_are_read_back(before.histories, id, id, one);
    appended_events_are_read_back(before.histories, id, id, other);
    assert((history + one).last() == one[0]);
    assert((history + one).drop_last() =~= history);
}

/// Of two appends that expect the same sequence one wins, and the other is answered with the
/// winner's head.
pub fn concurrent_appends_on_same_expected_sequence_has_one_winner<S: StoreUnderTest>(
    trial: &mut Trial<S>,
    ids: &mut IdSource,
) -> (outcome: Result<(), StoreError>)
    ensures
        final(trial).given() == old(trial).given(),
        final(trial).log().len() >= old(trial).log().len(),
        final(trial).log().take(old(trial).log().len() as int) == old(trial).log(),
        raced(
            old(ids).next,
            final(trial).log().skip(old(trial).log().len() as int),
            store_outcome(outcome),
        ),
        S::keeps_contract() ==> store_outcome(outcome) == race_outcome(
            old(ids).next,
            old(trial).world(),
        ),
        final(ids).next == following(old(ids).next),
{
    let ghost next = ids.next;
    let ghost from = trial.log().len() as int;
    let ghost before = trial.log();
    let ghost given = trial.world();
    let workflow_id = ids.workflow_id();
    let first_batch = vec![workflow_started(1, &workflow_id, "checkout")?];
    let second_batch = vec![workflow_started(1, &workflow_id, "billing")?];
    let ghost one = event_views(first_batch@);
    let ghost other = event_views(second_batch@);
    assert(one =~= race_batch(next, "checkout"@));
    assert(other =~= race_batch(next, "billing"@));
    let (first_result, second_result) = trial.append_both(
        &workflow_id,
        first_batch.as_slice(),
        second_batch.as_slice(),
        0,
    );
    let ghost replies = (store_outcome(first_result), store_outcome(second_result));
    let ghost between = trial.world();
    proof {
        assert(trial.log().skip(from) =~= seq![trial.log()[from]]);
        assert(trial.log().take(from) =~= before);
        if S::keeps_contract() {
            if one_after_the_other(given, workflow_id, one, other, 0, replies, between) {
                one_of_two_wins(given, between, workflow_id, one, other, replies);
            } else {
                one_of_two_wins(
                    given,
                    between,
                    workflow_id,
                    other,
                    one,
                    (replies.1, replies.0),
                );
            }
        }
    }
    let first_won = first_result.is_ok();
    expect_count(
        count_of_two(first_won, second_result.is_ok()),
        1,
        "concurrent appends with the same expected_seq should have exactly one winner",
    )?;
    let first_lost = matches!(
        first_result,
        Err(StoreError::SequenceConflict { expected: 0, found: 1 })
    );
    let second_lost = matches!(
        second_result,
        Err(StoreError::SequenceConflict { expected: 0, found: 1 })
    );
    expect_count(
        count_of_two(first_lost, second_lost),
        1,
        "losing concurrent append should return SequenceConflict for the winning head",
    )?;
    let expected_history = if first_won {
        first_batch
    } else {
        second_batch
    };
    let ghost asked = trial.log();
    let reply = trial.read_history(&workflow_id);
    proof {
        assert(trial.log().skip(from) =~= seq![asked[from], trial.log()[from + 1]]);
        assert(trial.log().take(from) =~= before);
        if S::keeps_contract() {
            let history = history_in(given.histories, workflow_id);
            let winner = event_views(expected_history@);
            if history.len() == 0 {
                assert(history + winner =~= winner);
            } else {
                assert((history + winner).len() != winner.len());
            }
        }
    }
    let history = reply?;
    expect_events(
        &history,
        &expected_history,
        "history should contain only the winning concurrent append batch",
    )
}

/// An event of the long history.
pub open spec fn long_event(id: WorkflowId, seq: u64) -> EventView {
    if seq == 1 {
        plain_start(1, id, "large-history"@)
    } else {
        scheduled(seq, id, "activity-"@ + decimal(seq as nat))
    }
}

/// Events of the long history.
pub open spec fn long_events(id: WorkflowId, from: int, to: int) -> Seq<EventView> {
    Seq::new((to - from) as nat, |i: int| long_event(id, (from + i + 1) as u64))
}

/// A batch of the long history.
pub open spec fn long_batch(id: WorkflowId, index: int) -> StepView {
    StepView::Append {
        workflow_id: id,
        events: long_events(id, 25 * index, 25 * index + 25),
        expected_seq: (25 * index) as u64,
    }
}

/// The script of [`large_history_round_trip`].
pub open spec fn large_script(next: u64) -> Seq<StepView> {
    let id = numbered(next);
    Seq::new(5, |index: int| long_batch(id, index)).push(
        StepView::LongHistory { workflow_id: id, events: long_events(id, 0, 125) },
    )
}

/// A history of several batches is read back whole and in order.
pub fn large_history_round_trip<S: StoreUnderTest>(
    trial: &mut Trial<S>,
    ids: &mut IdSource,
) -> (outcome: Result<(), StoreError>)
    ensures
        played(large_script(old(ids).next), *old(trial), *final(trial), outcome),
        final(ids).next == following(old(ids).next),
{
    let ghost script = large_script(ids.next);
    let workflow_id = ids.workflow_id();
    let batch_size: u64 = 25;
    let batch_count: u64 = 5;
    let mut steps: Vec<Step> = Vec::new();
    let mut expected: Vec<Event> = Vec::new();
    let mut batch_index: u64 = 0;
    assert(event_views(expected@) =~= long_events(workflow_id, 0, 0));
    assert(step_views(steps@) =~= script.take(0));
    while batch_index < batch_count
        invariant
            batch_size == 25,
            batch_count == 5,
            batch_index <= batch_count,
            workflow_id == numbered(old(ids).next),
            ids.next == following(old(ids).next),
            script == large_script(old(ids).next),
            *trial == *old(trial),
            event_views(expected@) == long_events(workflow_id, 0, 25 * batch_index),
            step_views(steps@) == script.take(batch_index as int),
        decreases batch_count - batch_index,
    {
        let batch_start = batch_index * batch_size + 1;
        let mut batch: Vec<Event> = Vec::new();
        let mut seq: u64 = batch_start;
        assert(event_views(batch@) =~= long_events(
            workflow_id,
            batch_start - 1,
            batch_start - 1,
        ));
        while seq < batch_start + batch_size
            invariant
                batch_size == 25,
                1 <= batch_start <= 101,
                batch_start <= seq <= batch_start + 25,
                event_views(batch@) == long_events(workflow_id, batch_start - 1, seq - 1),
            decreases batch_start + batch_size - seq,
        {
            let event = if seq == 1 {
                workflow_started(seq, &workflow_id, "large-history")?
            } else {
                activity_scheduled(
                    seq,
                    &workflow_id,
                    joined("activity-", decimal_text(seq as u128).as_str()).as_str(),
                )?
            };
            let ghost earlier = event_views(batch@);
            assert(event@ == long_event(workflow_id, seq));
            batch.push(event);
            seq += 1;
            assert(event_views(batch@) =~= long_events(workflow_id, batch_start - 1, seq - 1)) by {
                assert(event_views(batch@) =~= earlier.push(event@));
            }
        }
        let ghost earlier = event_views(expected@);
        let ghost before = steps@;
        let mut copy = clone_events(batch.as_slice());
        let ghost copied = copy@;
        let ghost all = expected@;
        expected.append(&mut copy);
        assert(event_views(expected@) =~= event_views(all) + event_views(copied));
        steps.push(Step::Append { workflow_id, events: batch, expected_seq: batch_start - 1 });
        assert(event_views(batch@) =~= long_events(
            workflow_id,
            25 * batch_index,
            25 * batch_index + 25,
        ));
        assert(steps@.last()@ == long_batch(workflow_id, batch_index as int));
        assert(step_views(steps@) =~= step_views(before).push(steps@.last()@));
        assert(script.take(batch_index + 1) =~= script.take(batch_index as int).push(
            script[batch_index as int],
        ));
        batch_index += 1;
        assert(event_views(expected@) =~= long_events(workflow_id, 0, 25 * batch_index));
    }
    let ghost before = steps@;
    steps.push(Step::LongHistory { workflow_id, events: expected });
    assert(step_views(steps@) =~= step_views(before).push(steps@.last()@));
    assert(step_views(steps@) =~= script);
    play(&steps, trial)
}

/// The script of [`list_active_reflects_projected_status`].
pub open spec fn active_script(next: u64) -> Seq<StepView> {
    let running = numbered(next);
    let completing = numbered(following(next));
    let continuing = numbered(following(following(next)));
    seq![
        StepView::NoneActive { message: "empty store should have no active workflows"@ },
        StepView::Append {
            workflow_id: running,
            events: seq![plain_start(1, running, "checkout"@)],
            expected_seq: 0,
        },
        StepView::Append {
            workflow_id: completing,
            events: seq![plain_start(1, completing, "billing"@)],
            expected_seq: 0,
        },
        StepView::Append {
            workflow_id: continuing,
            events: seq![plain_start(1, continuing, "fulfillment"@)],
            expected_seq: 0,
        },
        StepView::Active {
            workflows: seq![running, completing, continuing],
            message: "started workflows should be listed as active before terminal events"@,
        },
        StepView::Append {
            workflow_id: completing,
            events: seq![completed(2, completing, 2)],
            expected_seq: 1,
        },
        StepView::Append {
            workflow_id: continuing,
            events: seq![continued(2, continuing, RunId { value: 42 }, 2)],
            expected_seq: 1,
        },
        StepView::Active {
            workflows: seq![running],
            message: "terminal workflow lifecycle events, including continued-as-new, should remove workflows from active listing"@,
        },
    ]
}

/// Workflows are listed as active from their start to their end.
pub fn list_active_reflects_projected_status<S: StoreUnderTest>(
    trial: &mut Trial<S>,
    ids: &mut IdSource,
) -> (outcome: Result<(), StoreError>)
    ensures
        played(active_script(old(ids).next), *old(trial), *final(trial), outcome),
        final(ids).next == following(following(following(old(ids).next))),
{
    let ghost script = active_script(ids.next);
    let running = ids.workflow_id();
    let completing = ids.workflow_id();
    let continuing = ids.workflow_id();
    let begin_running = vec![workflow_started(1, &running, "checkout")?];
    let begin_completing = vec![workflow_started(1, &completing, "billing")?];
    let begin_continuing = vec![workflow_started(1, &continuing, "fulfillment")?];
    let complete = vec![workflow_completed(2, &completing)?];
    let continue_as_new = vec![workflow_continued_as_new(2, &continuing)?];
    let all = vec![running, completing, continuing];
    let rest = vec![running];
    assert(event_views(begin_running@) =~= script[1]->Append_events);
    assert(event_views(begin_completing@) =~= script[2]->Append_events);
    assert(event_views(begin_continuing@) =~= script[3]->Append_events);
    assert(all@ =~= script[4]->Active_workflows);
    assert(event_views(complete@) =~= script[5]->Append_events);
    assert(event_views(continue_as_new@) =~= script[6]->Append_events);
    assert(rest@ =~= script[7]->Active_workflows);
    let steps = vec![
        Step::NoneActive { message: "empty store should have no active workflows" },
        Step::Append { workflow_id: running, events: begin_running, expected_seq: 0 },
        Step::Append { workflow_id: completing, events: begin_completing, expected_seq: 0 },
        Step::Append { workflow_id: continuing, events: begin_continuing, expected_seq: 0 },
        Step::Active {
            workflows: all,
            message: "started workflows should be listed as active before terminal events",
        },
        Step::Append { workflow_id: completing, events: complete, expected_seq: 1 },
        Step::Append { workflow_id: continuing, events: continue_as_new, expected_seq: 1 },
        Step::Active {
            workflows: rest,
            message: "terminal workflow lifecycle events, including continued-as-new, should remove workflows from active listing",
        },
    ];
    assert(step_views(steps@) =~= script);
    play(&steps, trial)
}

/// What is said where the query without conditions lists other workflows.
pub open spec fn every_workflow_message() -> Seq<char> {
    "default query filter should match every workflow with a start event"@
}

/// The filter that selects the completed checkout.
pub open spec fn completed_checkout_filter() -> WorkflowFilterView {
    WorkflowFilterView {
        workflow_type: Some("checkout"@),
        status: Some(WorkflowStatus::Completed),
        started_after: Some(instant(10)),
        started_before: Some(instant(10)),
        parent: None,
    }
}

/// The checks of the completed checkout's summary.
pub open spec fn completed_checkout_checks(id: WorkflowId) -> Seq<SummaryCheckView> {
    seq![
        SummaryCheckView {
            part: SummaryPartView::Workflow(id),
            message: "query should return the workflow matching all requested filters"@,
        },
        SummaryCheckView {
            part: SummaryPartView::Type("checkout"@),
            message: "query summary should preserve workflow type"@,
        },
        SummaryCheckView {
            part: SummaryPartView::Status(WorkflowStatus::Completed),
            message: "query summary should project status from history"@,
        },
        SummaryCheckView {
            part: SummaryPartView::StartedAt(instant(10)),
            message: "query summary should use WorkflowStarted recorded_at as started_at"@,
        },
        SummaryCheckView {
            part: SummaryPartView::EndedAt(instant(11)),
            message: "query summary should use terminal event recorded_at as ended_at"@,
        },
    ]
}

/// A start that is named by its sequence number, recorded at an offset.
pub open spec fn start_at(
    seq: u64,
    id: WorkflowId,
    workflow_type: Seq<char>,
    offset: int,
) -> EventView {
    started(seq, id, workflow_type, RunId { value: seq as u128 }, None, offset)
}

/// The script of [`query_applies_all_filters`].
pub open spec fn query_script(next: u64) -> Seq<StepView> {
    let running = numbered(next);
    let complete = numbered(following(next));
    let failing = numbered(following(following(next)));
    let parent = numbered(following(following(following(next))));
    seq![
        StepView::Append {
            workflow_id: running,
            events: seq![start_at(1, running, "checkout"@, 1)],
            expected_seq: 0,
        },
        StepView::Append {
            workflow_id: complete,
            events: seq![
                start_at(1, complete, "checkout"@, 10),
                completed(2, complete, 11),
            ],
            expected_seq: 0,
        },
        StepView::Append {
            workflow_id: failing,
            events: seq![start_at(1, failing, "billing"@, 20), failed(2, failing, 21)],
            expected_seq: 0,
        },
        StepView::Summaries {
            filter: unfiltered(),
            workflows: seq![running, complete, failing],
            message: every_workflow_message(),
        },
        StepView::SoleSummary {
            filter: completed_checkout_filter(),
            message: "combined type/status/time-range query should require all filters to match inclusively"@,
            checks: completed_checkout_checks(complete),
        },
        StepView::NoSummaries {
            filter: WorkflowFilterView { parent: Some(parent), ..unfiltered() },
            message: "parent filters should return no workflows when no summary carries that parent"@,
        },
    ]
}

/// Queries return the workflows that match every part of the filter.
pub fn query_applies_all_filters<S: StoreUnderTest>(
    trial: &mut Trial<S>,
    ids: &mut IdSource,
) -> (outcome: Result<(), StoreError>)
    ensures
        played(query_script(old(ids).next), *old(trial), *final(trial), outcome),
        final(ids).next == following(following(following(following(old(ids).next)))),
{
    let ghost script = query_script(ids.next);
    let running_checkout = ids.workflow_id();
    let completed_checkout = ids.workflow_id();
    let failed_billing = ids.workflow_id();
    let parent = ids.workflow_id();
    let run = vec![workflow_started_at(1, &running_checkout, "checkout", 1)?];
    let complete = vec![
        workflow_started_at(1, &completed_checkout, "checkout", 10)?,
        workflow_completed_at(2, &completed_checkout, 11)?,
    ];
    let fail = vec![
        workflow_started_at(1, &failed_billing, "billing", 20)?,
        workflow_failed_at(2, &failed_billing, 21)?,
    ];
    let expected = vec![running_checkout, completed_checkout, failed_billing];
    let checks = vec![
        SummaryCheck {
            part: SummaryPart::Workflow(completed_checkout),
            message: "query should return the workflow matching all requested filters",
        },
        SummaryCheck {
            part: SummaryPart::Type("checkout"),
            message: "query summary should preserve workflow type",
        },
        SummaryCheck {
            part: SummaryPart::Status(WorkflowStatus::Completed),
            message: "query summary should project status from history",
        },
        SummaryCheck {
            part: SummaryPart::StartedAt(recorded_at(10)?),
            message: "query summary should use WorkflowStarted recorded_at as started_at",
        },
        SummaryCheck {
            part: SummaryPart::EndedAt(recorded_at(11)?),
            message: "query summary should use terminal event recorded_at as ended_at",
        },
    ];
    assert(event_views(run@) =~= script[0]->Append_events);
    assert(event_views(complete@) =~= script[1]->Append_events);
    assert(event_views(fail@) =~= script[2]->Append_events);
    assert(expected@ =~= script[3]->Summaries_workflows);
    assert(check_views(checks@) =~= completed_checkout_checks(completed_checkout));
    let filter = WorkflowFilter {
        workflow_type: Some("checkout".to_owned()),
        status: Some(WorkflowStatus::Completed),
        started_after: Some(recorded_at(10)?),
        started_before: Some(recorded_at(10)?),
        parent: None,
    };
    let parent_filter = WorkflowFilter {
        workflow_type: None,
        status: None,
        started_after: None,
        started_before: None,
        parent: Some(parent),
    };
    let steps = vec![
        Step::Append { workflow_id: running_checkout, events: run, expected_seq: 0 },
        Step::Append { workflow_id: completed_checkout, events: complete, expected_seq: 0 },
        Step::Append { workflow_id: failed_billing, events: fail, expected_seq: 0 },
        Step::Summaries {
            filter: WorkflowFilter::default(),
            workflows: expected,
            message: "default query filter should match every workflow with a start event",
        },
        Step::SoleSummary {
            filter,
            message: "combined type/status/time-range query should require all filters to match inclusively",
            checks,
        },
        Step::NoSummaries {
            filter: parent_filter,
            message: "parent filters should return no workflows when no summary carries that parent",
        },
    ];
    assert(step_views(steps@) =~= script);
    play(&steps, trial)
}

/// The script of [`continued_as_new_query_returns_correct_status_and_ended_at`].
pub open spec fn continued_script(next: u64) -> Seq<StepView> {
    let id = numbered(next);
    seq![
        StepView::Append {
            workflow_id: id,
            events: seq![
                start_at(1, id, "checkout"@, 10),
                continued(2, id, RunId { value: 42 }, 12),
            ],
            expected_seq: 0,
        },
        StepView::SoleSummary {
            filter: unfiltered(),
            message: "default query filter should return the continued-as-new workflow"@,
            checks: seq![
                SummaryCheckView {
                    part: SummaryPartView::Workflow(id),
                    message: "default query filter should include the continued-as-new workflow id"@,
                },
                SummaryCheckView {
                    part: SummaryPartView::Status(WorkflowStatus::ContinuedAsNew),
                    message: "query summary should project ContinuedAsNew status from WorkflowContinuedAsNew"@,
                },
                SummaryCheckView {
                    part: SummaryPartView::EndedAt(instant(12)),
                    message: "query summary ended_at should use the WorkflowContinuedAsNew recorded_at timestamp"@,
                },
            ],
        },
        StepView::SoleSummary {
            filter: WorkflowFilterView {
                status: Some(WorkflowStatus::ContinuedAsNew),
                ..unfiltered()
            },
            message: "ContinuedAsNew status query should match the continued-as-new workflow"@,
            checks: seq![
                SummaryCheckView {
                    part: SummaryPartView::Workflow(id),
                    message: "ContinuedAsNew status query should return the matching workflow id"@,
                },
                SummaryCheckView {
                    part: SummaryPartView::Status(WorkflowStatus::ContinuedAsNew),
                    message: "ContinuedAsNew status query should preserve the projected status"@,
                },
                SummaryCheckView {
                    part: SummaryPartView::EndedAt(instant(12)),
                    message: "ContinuedAsNew status query should preserve the continued event timestamp as ended_at"@,
                },
            ],
        },
    ]
}

/// A workflow that continued as new is summarised with that status and the time of its end.
pub fn continued_as_new_query_returns_correct_status_and_ended_at<S: StoreUnderTest>(
    trial: &mut Trial<S>,
    ids: &mut IdSource,
) -> (outcome: Result<(), StoreError>)
    ensures
        played(continued_script(old(ids).next), *old(trial), *final(trial), outcome),
        final(ids).next == following(old(ids).next),
{
    let ghost script = continued_script(ids.next);
    let workflow_id = ids.workflow_id();
    let events = vec![
        workflow_started_at(1, &workflow_id, "checkout", 10)?,
        workflow_continued_as_new_at(2, &workflow_id, 12)?,
    ];
    let ended_at = recorded_at(12)?;
    let default_checks = vec![
        SummaryCheck {
            part: SummaryPart::Workflow(workflow_id),
            message: "default query filter should include the continued-as-new workflow id",
        },
        SummaryCheck {
            part: SummaryPart::Status(WorkflowStatus::ContinuedAsNew),
            message: "query summary should project ContinuedAsNew status from WorkflowContinuedAsNew",
        },
        SummaryCheck {
            part: SummaryPart::EndedAt(ended_at),
            message: "query summary ended_at should use the WorkflowContinuedAsNew recorded_at timestamp",
        },
    ];
    let status_checks = vec![
        SummaryCheck {
            part: SummaryPart::Workflow(workflow_id),
            message: "ContinuedAsNew status query should return the matching workflow id",
        },
        SummaryCheck {
            part: SummaryPart::Status(WorkflowStatus::ContinuedAsNew),
            message: "ContinuedAsNew status query should preserve the projected status",
        },
        SummaryCheck {
            part: SummaryPart::EndedAt(ended_at),
            message: "ContinuedAsNew status query should preserve the continued event timestamp as ended_at",
        },
    ];
    let continued_filter = WorkflowFilter {
        workflow_type: None,
        status: Some(WorkflowStatus::ContinuedAsNew),
        started_after: None,
        started_before: None,
        parent: None,
    };
    assert(event_views(events@) =~= script[0]->Append_events);
    assert(check_views(default_checks@) =~= script[1]->SoleSummary_checks);
    assert(check_views(status_checks@) =~= script[2]->SoleSummary_checks);
    let steps = vec![
        Step::Append { workflow_id, events, expected_seq: 0 },
        Step::SoleSummary {
            filter: WorkflowFilter::default(),
            message: "default query filter should return the continued-as-new workflow",
            checks: default_checks,
        },
        Step::SoleSummary {
            filter: continued_filter,
            message: "ContinuedAsNew status query should match the continued-as-new workflow",
            checks: status_checks,
        },
    ];
    assert(step_views(steps@) =~= script);
    play(&steps, trial)
}

/// A run that was opened and not closed.
pub open spec fn open_run(run_id: RunId, parent_run_id: Option<RunId>, from: int) -> RunSummary {
    RunSummary {
        run_id,
        parent_run_id,
        status: WorkflowStatus::Running,
        started_at: instant(from),
        closed_at: None,
    }
}

/// A run that was opened and closed.
pub open spec fn closed_run(
    run_id: RunId,
    parent_run_id: Option<RunId>,
    status: WorkflowStatus,
    from: int,
    to: int,
) -> RunSummary {
    RunSummary {
        run_id,
        parent_run_id,
        status,
        started_at: instant(from),
        closed_at: Some(instant(to)),
    }
}

/// The script of [`read_run_chain_orders_continuations`].
pub open spec fn chain_script(next: u64) -> Seq<StepView> {
    let id = numbered(following(next));
    let first = RunId { value: 101 };
    let second = RunId { value: 102 };
    seq![
        StepView::NoRuns {
            workflow_id: numbered(next),
            message: "unknown workflow run chain should be empty"@,
        },
        StepView::Append {
            workflow_id: id,
            events: seq![
                started(1, id, "checkout"@, first, None, 1),
                continued(2, id, first, 2),
                started(3, id, "checkout-v2"@, second, Some(first), 3),
            ],
            expected_seq: 0,
        },
        StepView::Runs {
            workflow_id: id,
            runs: seq![
                closed_run(first, None, WorkflowStatus::ContinuedAsNew, 1, 2),
                open_run(second, Some(first), 3),
            ],
            message: "read_run_chain should handle a workflow with exactly one continuation"@,
        },
    ]
}

/// The runs of a workflow are listed oldest first.
pub fn read_run_chain_orders_continuations<S: StoreUnderTest>(
    trial: &mut Trial<S>,
    ids: &mut IdSource,
) -> (outcome: Result<(), StoreError>)
    ensures
        played(chain_script(old(ids).next), *old(trial), *final(trial), outcome),
        final(ids).next == following(following(old(ids).next)),
{
    let ghost script = chain_script(ids.next);
    let unknown = ids.workflow_id();
    let one_continuation = ids.workflow_id();
    let first = run_id(101);
    let second = run_id(102);
    let events = vec![
        workflow_started_with_run(1, &one_continuation, "checkout", &first, None)?,
        workflow_continued_as_new_with_parent(2, &one_continuation, &first)?,
        workflow_started_with_run(3, &one_continuation, "checkout-v2", &second, Some(first))?,
    ];
    let runs = vec![
        RunSummary {
            run_id: first,
            parent_run_id: None,
            status: WorkflowStatus::ContinuedAsNew,
            started_at: recorded_at(1)?,
            closed_at: Some(recorded_at(2)?),
        },
        RunSummary {
            run_id: second,
            parent_run_id: Some(first),
            status: WorkflowStatus::Running,
            started_at: recorded_at(3)?,
            closed_at: None,
        },
    ];
    assert(event_views(events@) =~= script[1]->Append_events);
    assert(runs@ =~= script[2]->Runs_runs);
    let steps = vec![
        Step::NoRuns {
            workflow_id: unknown,
            message: "unknown workflow run chain should be empty",
        },
        Step::Append { workflow_id: one_continuation, events, expected_seq: 0 },
        Step::Runs {
            workflow_id: one_continuation,
            runs,
            message: "read_run_chain should handle a workflow with exactly one continuation",
        },
    ];
    assert(step_views(steps@) =~= script);
    play(&steps, trial)
}

/// The script of [`read_run_chain_single_and_multi_continuations`].
pub open spec fn chains_script(next: u64) -> Seq<StepView> {
    let single = numbered(next);
    let single_run = RunId { value: 1 };
    let id = numbered(following(next));
    let first = RunId { value: 11 };
    let second = RunId { value: 12 };
    let third = RunId { value: 13 };
    seq![
        StepView::Append {
            workflow_id: single,
            events: seq![started(1, single, "checkout"@, single_run, None, 1)],
            expected_seq: 0,
        },
        StepView::Runs {
            workflow_id: single,
            runs: seq![open_run(single_run, None, 1)],
            message: "single-run workflow should return one running RunSummary"@,
        },
        StepView::Append {
            workflow_id: id,
            events: seq![
                started(1, id, "checkout"@, first, None, 1),
                continued(2, id, first, 2),
                started(3, id, "checkout-v2"@, second, Some(first), 3),
                continued(4, id, second, 4),
                started(5, id, "checkout-v3"@, third, Some(second), 5),
                completed(6, id, 6),
            ],
            expected_seq: 0,
        },
        StepView::Runs {
            workflow_id: id,
            runs: seq![
                closed_run(first, None, WorkflowStatus::ContinuedAsNew, 1, 2),
                closed_run(second, Some(first), WorkflowStatus::ContinuedAsNew, 3, 4),
                closed_run(third, Some(second), WorkflowStatus::Completed, 5, 6),
            ],
            message: "read_run_chain should follow parent_run_id links oldest to newest"@,
        },
    ]
}

/// Chains of one run and of several are read back.
pub fn read_run_chain_single_and_multi_continuations<S: StoreUnderTest>(
    trial: &mut Trial<S>,
    ids: &mut IdSource,
) -> (outcome: Result<(), StoreError>)
    ensures
        played(chains_script(old(ids).next), *old(trial), *final(trial), outcome),
        final(ids).next == following(following(old(ids).next)),
{
    let ghost script = chains_script(ids.next);
    let single = ids.workflow_id();
    let single_run = run_id(1);
    let single_events = vec![
        workflow_started_with_run(1, &single, "checkout", &single_run, None)?,
    ];
    let single_chain = vec![
        RunSummary {
            run_id: single_run,
            parent_run_id: None,
            status: WorkflowStatus::Running,
            started_at: recorded_at(1)?,
            closed_at: None,
        },
    ];
    let workflow = ids.workflow_id();
    let first = run_id(11);
    let second = run_id(12);
    let third = run_id(13);
    let events = vec![
        workflow_started_with_run(1, &workflow, "checkout", &first, None)?,
        workflow_continued_as_new_with_parent(2, &workflow, &first)?,
        workflow_started_with_run(3, &workflow, "checkout-v2", &second, Some(first))?,
        workflow_continued_as_new_with_parent(4, &workflow, &second)?,
        workflow_started_with_run(5, &workflow, "checkout-v3", &third, Some(second))?,
        workflow_completed(6, &workflow)?,
    ];
    let chain = vec![
        RunSummary {
            run_id: first,
            parent_run_id: None,
            status: WorkflowStatus::ContinuedAsNew,
            started_at: recorded_at(1)?,
            closed_at: Some(recorded_at(2)?),
        },
        RunSummary {
            run_id: second,
            parent_run_id: Some(first),
            status: WorkflowStatus::ContinuedAsNew,
            started_at: recorded_at(3)?,
            closed_at: Some(recorded_at(4)?),
        },
        RunSummary {
            run_id: third,
            parent_run_id: Some(second),
            status: WorkflowStatus::Completed,
            started_at: recorded_at(5)?,
            closed_at: Some(recorded_at(6)?),
        },
    ];
    assert(event_views(single_events@) =~= script[0]->Append_events);
    assert(single_chain@ =~= script[1]->Runs_runs);
    assert(event_views(events@) =~= script[2]->Append_events);
    assert(chain@ =~= script[3]->Runs_runs);
    let steps = vec![
        Step::Append { workflow_id: single, events: single_events, expected_seq: 0 },
        Step::Runs {
            workflow_id: single,
            runs: single_chain,
            message: "single-run workflow should return one running RunSummary",
        },
        Step::Append { workflow_id: workflow, events, expected_seq: 0 },
        Step::Runs {
            workflow_id: workflow,
            runs: chain,
            message: "read_run_chain should follow parent_run_id links oldest to newest",
        },
    ];
    assert(step_views(steps@) =~= script);
    play(&steps, trial)
}

/// A timer of the suite.
pub open spec fn timer_entry(id: WorkflowId, position: u64, offset: int) -> TimerEntryView {
    TimerEntryView {
        workflow_id: id,
        timer_id: TimerIdView::Anonymous(position),
        fire_at: instant(offset),
    }
}

/// The script of [`expired_timers_include_due_boundary_and_exclude_future`].
pub open spec fn due_script(next: u64) -> Seq<StepView> {
    let id = numbered(next);
    seq![
        StepView::ScheduleTimer {
            workflow_id: id,
            timer_id: TimerIdView::Anonymous(3),
            fire_at: instant(30),
        },
        StepView::ScheduleTimer {
            workflow_id: id,
            timer_id: TimerIdView::Anonymous(2),
            fire_at: instant(20),
        },
        StepView::ScheduleTimer {
            workflow_id: id,
            timer_id: TimerIdView::Anonymous(1),
            fire_at: instant(10),
        },
        StepView::Timers {
            as_of: instant(20),
            entries: seq![timer_entry(id, 1, 10), timer_entry(id, 2, 20)],
            message: "expired_timers should include fire_at <= as_of and exclude future timers"@,
        },
    ]
}

/// Timers are due at their time, and not before.
pub fn expired_timers_include_due_boundary_and_exclude_future<S: StoreUnderTest>(
    trial: &mut Trial<S>,
    ids: &mut IdSource,
) -> (outcome: Result<(), StoreError>)
    ensures
        played(due_script(old(ids).next), *old(trial), *final(trial), outcome),
        final(ids).next == following(old(ids).next),
{
    let ghost script = due_script(ids.next);
    let workflow_id = ids.workflow_id();
    let as_of = recorded_at(20)?;
    let entries = vec![
        TimerEntry { workflow_id, timer_id: TimerId::anonymous(1), fire_at: recorded_at(10)? },
        TimerEntry { workflow_id, timer_id: TimerId::anonymous(2), fire_at: as_of },
    ];
    assert(timer_views(entries@) =~= script[3]->Timers_entries);
    let steps = vec![
        Step::ScheduleTimer {
            workflow_id,
            timer_id: TimerId::anonymous(3),
            fire_at: recorded_at(30)?,
        },
        Step::ScheduleTimer { workflow_id, timer_id: TimerId::anonymous(2), fire_at: as_of },
        Step::ScheduleTimer {
            workflow_id,
            timer_id: TimerId::anonymous(1),
            fire_at: recorded_at(10)?,
        },
        Step::Timers {
            as_of,
            entries,
            message: "expired_timers should include fire_at <= as_of and exclude future timers",
        },
    ];
    assert(step_views(steps@) =~= script);
    play(&steps, trial)
}

/// The script of [`rescheduling_same_timer_replaces_prior_fire_at`].
pub open spec fn reschedule_script(next: u64) -> Seq<StepView> {
    let id = numbered(next);
    seq![
        StepView::ScheduleTimer {
            workflow_id: id,
            timer_id: TimerIdView::Anonymous(1),
            fire_at: instant(10),
        },
        StepView::ScheduleTimer {
            workflow_id: id,
            timer_id: TimerIdView::Anonymous(1),
            fire_at: instant(30),
        },
        StepView::NoTimers {
            as_of: instant(10),
            message: "rescheduling the same timer should replace its earlier fire_at"@,
        },
        StepView::Timers {
            as_of: instant(30),
            entries: seq![timer_entry(id, 1, 30)],
            message: "rescheduled timer should expire at the replacement fire_at"@,
        },
    ]
}

/// A timer that is scheduled again is due at its new time only.
pub fn rescheduling_same_timer_replaces_prior_fire_at<S: StoreUnderTest>(
    trial: &mut Trial<S>,
    ids: &mut IdSource,
) -> (outcome: Result<(), StoreError>)
    ensures
        played(reschedule_script(old(ids).next), *old(trial), *final(trial), outcome),
        final(ids).next == following(old(ids).next),
{
    let ghost script = reschedule_script(ids.next);
    let workflow_id = ids.workflow_id();
    let first_fire_at = recorded_at(10)?;
    let replacement_fire_at = recorded_at(30)?;
    let entries = vec![
        TimerEntry {
            workflow_id,
            timer_id: TimerId::anonymous(1),
            fire_at: replacement_fire_at,
        },
    ];
    assert(timer_views(entries@) =~= script[3]->Timers_entries);
    let steps = vec![
        Step::ScheduleTimer {
            workflow_id,
            timer_id: TimerId::anonymous(1),
            fire_at: first_fire_at,
        },
        Step::ScheduleTimer {
            workflow_id,
            timer_id: TimerId::anonymous(1),
            fire_at: replacement_fire_at,
        },
        Step::NoTimers {
            as_of: first_fire_at,
            message: "rescheduling the same timer should replace its earlier fire_at",
        },
        Step::Timers {
            as_of: replacement_fire_at,
            entries,
            message: "rescheduled timer should expire at the replacement fire_at",
        },
    ];
    assert(step_views(steps@) =~= script);
    play(&steps, trial)
}

/// A batch that goes on behind a numbered history is accepted.
proof fn accepted(history: Seq<EventView>, events: Seq<EventView>, expected_seq: u64)
    requires
        contiguous(history, 0),
        history.len() == expected_seq,
        contiguous(events, expected_seq as int),
    ensures
        append_rule(history, events, expected_seq) is Ok,
{
    numbered_history_head(history);
}

/// A script goes on behind a step that passes.
proof fn plays_on(script: Seq<StepView>, place: int, world: World)
    requires
        0 <= place < script.len(),
        modelled(script[place], world) is Ok,
    ensures
        scripted(script.skip(place), world) == scripted(
            script.skip(place + 1),
            after_step(script[place], world),
        ),
{
    assert(script.skip(place)[0] == script[place]);
    assert(script.skip(place).drop_first() =~= script.skip(place + 1));
}

/// A script that was played to its end passes.
proof fn plays_out(script: Seq<StepView>, world: World)
    ensures
        scripted(script.skip(script.len() as int), world) is Ok,
        script.skip(0) == script,
{
    assert(script.skip(script.len() as int).len() == 0);
    assert(script.skip(0) =~= script);
}

/// A healthy store appends a batch to a workflow whose history ends at the expected head.
proof fn batch_is_taken(
    world: World,
    id: WorkflowId,
    other: WorkflowId,
    events: Seq<EventView>,
    expected_seq: u64,
)
    requires
        healthy(world),
        contiguous(history_in(world.histories, id), 0),
        history_in(world.histories, id).len() == expected_seq,
        contiguous(events, expected_seq as int),
    ensures
        append_reply(world, id, events, expected_seq) is Ok,
        healthy(after_append(world, id, events, expected_seq)),
        after_append(world, id, events, expected_seq).timers == world.timers,
        after_append(world, id, events, expected_seq).histories == appended(
            world.histories,
            id,
            events,
        ),
        history_in(after_append(world, id, events, expected_seq).histories, id) == history_in(
            world.histories,
            id,
        ) + events,
        other != id ==> history_in(
            after_append(world, id, events, expected_seq).histories,
            other,
        ) == history_in(world.histories, other),
{
    accepted(history_in(world.histories, id), events, expected_seq);
    appended_events_are_read_back(world.histories, id, other, events);
}

#[verifier::spinoff_prover]
proof fn round_trip_passes(next: u64)
    ensures
        scripted(round_trip_script(next), empty_world()) is Ok,
{
    let script = round_trip_script(next);
    let id = numbered(next);
    let w = empty_world();
    let events = script[1]->Append_events;
    plays_out(script, after_step(script[1], w));
    plays_on(script, 0, w);
    assert(contiguous(events, 0)) by {
        assert forall|i: int| 0 <= i < events.len() implies (#[trigger] events[i]).envelope.seq == 1
            + i by {
            assert(i == 0 || i == 1 || i == 2 || i == 3);
        }
    }
    batch_is_taken(w, id, id, events, 0);
    plays_on(script, 1, w);
    assert(Seq::<EventView>::empty() + events =~= events);
    plays_on(script, 2, after_step(script[1], w));
}

#[verifier::spinoff_prover]
proof fn batches_pass(next: u64)
    ensures
        scripted(batches_script(next), empty_world()) is Ok,
{
    let script = batches_script(next);
    let id = numbered(next);
    let w0 = empty_world();
    let first = script[0]->Append_events;
    let second = script[1]->Append_events;
    let w1 = after_step(script[0], w0);
    let w2 = after_step(script[1], w1);
    plays_out(script, w2);
    assert(contiguous(first, 0));
    assert(contiguous(second, 1)) by {
        assert forall|i: int| 0 <= i < second.len() implies (#[trigger] second[i]).envelope.seq == 2
            + i by {
            assert(i == 0 || i == 1);
        }
    }
    batch_is_taken(w0, id, id, first, 0);
    assert(Seq::<EventView>::empty() + first =~= first);
    plays_on(script, 0, w0);
    batch_is_taken(w1, id, id, second, 1);
    plays_on(script, 1, w1);
    plays_on(script, 2, w2);
}

#[verifier::spinoff_prover]
proof fn stale_passes(next: u64)
    ensures
        scripted(stale_script(next), empty_world()) is Ok,
{
    let script = stale_script(next);
    let id = numbered(next);
    let w0 = empty_world();
    let first = script[0]->Append_events;
    let w1 = after_step(script[0], w0);
    plays_out(script, w1);
    assert(contiguous(first, 0));
    batch_is_taken(w0, id, id, first, 0);
    assert(Seq::<EventView>::empty() + first =~= first);
    plays_on(script, 0, w0);
    numbered_history_head(first);
    plays_on(script, 1, w1);
    plays_on(script, 2, w1);
}

proof fn race_passes(next: u64)
    ensures
        race_outcome(next, empty_world()) is Ok,
{
    let batch = race_batch(next, "checkout"@);
    assert(contiguous(batch, 0));
    batch_is_taken(empty_world(), numbered(next), numbered(next), batch, 0);
}

#[verifier::spinoff_prover]
proof fn large_passes(next: u64)
    ensures
        scripted(large_script(next), empty_world()) is Ok,
{
    let script = large_script(next);
    let id = numbered(next);
    let w0 = empty_world();
    let w1 = after_step(script[0], w0);
    let w2 = after_step(script[1], w1);
    let w3 = after_step(script[2], w2);
    let w4 = after_step(script[3], w3);
    let w5 = after_step(script[4], w4);
    plays_out(script, w5);
    assert(history_in(w0.histories, id) =~= long_events(id, 0, 0));
    long_batch_is_taken(next, 0, w0);
    plays_on(script, 0, w0);
    long_batch_is_taken(next, 1, w1);
    plays_on(script, 1, w1);
    long_batch_is_taken(next, 2, w2);
    plays_on(script, 2, w2);
    long_batch_is_taken(next, 3, w3);
    plays_on(script, 3, w3);
    long_batch_is_taken(next, 4, w4);
    plays_on(script, 4, w4);
    let events = long_events(id, 0, 125);
    assert(sequences(events)
        =~= counted_up(125));
    plays_on(script, 5, w5);
}

proof fn long_batch_is_taken(next: u64, index: int, world: World)
    requires
        0 <= index < 5,
        healthy(world),
        history_in(world.histories, numbered(next)) == long_events(
            numbered(next),
            0,
            25 * index,
        ),
    ensures
        ({
            let step = large_script(next)[index];
            &&& modelled(step, world) is Ok
            &&& healthy(after_step(step, world))
            &&& history_in(after_step(step, world).histories, numbered(next)) == long_events(
                numbered(next),
                0,
                25 * (index + 1),
            )
        }),
{
    let id = numbered(next);
    let history = long_events(id, 0, 25 * index);
    let batch = long_events(id, 25 * index, 25 * index + 25);
    assert(large_script(next)[index] == long_batch(id, index));
    assert forall|i: int| 0 <= i < history.len() implies (#[trigger] history[i]).envelope.seq == 1
        + i by {}
    assert forall|i: int| 0 <= i < batch.len() implies (#[trigger] batch[i]).envelope.seq == 25
        * index + 1 + i by {}
    batch_is_taken(world, id, id, batch, (25 * index) as u64);
    assert(history + batch =~= long_events(id, 0, 25 * (index + 1)));
}

/// No value is listed of a map without keys.
proof fn nothing_listed<K, V>(wanted: Map<K, V>)
    requires
        forall|key: K| !#[trigger] wanted.contains_key(key),
    ensures
        listing_of(wanted).len() == 0,
{
    let keys = Seq::<K>::empty();
    let values = Seq::<V>::empty();
    assert(enumerates(keys, values, wanted));
    listed_alike(values, wanted);
}

/// The value of a sole key is listed.
proof fn one_listed<K, V>(wanted: Map<K, V>, a: K)
    requires
        forall|key: K| #[trigger] wanted.contains_key(key) <==> key == a,
    ensures
        lists(seq![wanted[a]], wanted),
        listing_of(wanted).len() == 1,
        listing_of(wanted)[0] == wanted[a],
        listing_of(wanted).to_multiset() == seq![wanted[a]].to_multiset(),
{
    let keys = seq![a];
    let values = seq![wanted[a]];
    assert(keys[0] == a);
    assert forall|key: K| #[trigger] keys.contains(key) <==> wanted.contains_key(key) by {
        if key == a {
            assert(keys.contains(keys[0]));
        }
    }
    assert(enumerates(keys, values, wanted));
    listed_alike(values, wanted);
}

/// The values of two keys are listed.
proof fn two_listed<K, V>(wanted: Map<K, V>, a: K, b: K)
    requires
        a != b,
        forall|key: K| #[trigger] wanted.contains_key(key) <==> key == a || key == b,
    ensures
        listing_of(wanted).to_multiset() == seq![wanted[a], wanted[b]].to_multiset(),
{
    let keys = seq![a, b];
    let values = seq![wanted[a], wanted[b]];
    assert(keys[0] == a && keys[1] == b);
    assert forall|key: K| #[trigger] keys.contains(key) <==> wanted.contains_key(key) by {
        if wanted.contains_key(key) {
            assert(keys.contains(keys[0]) && keys.contains(keys[1]));
        }
    }
    assert forall|i: int| 0 <= i < keys.len() implies values[i] == wanted[#[trigger] keys[i]] by {
        assert(i == 0 || i == 1);
    }
    assert(enumerates(keys, values, wanted));
    listed_alike(values, wanted);
}

/// The values of three keys are listed.
proof fn three_listed<K, V>(wanted: Map<K, V>, a: K, b: K, c: K)
    requires
        a != b,
        b != c,
        a != c,
        forall|key: K| #[trigger] wanted.contains_key(key) <==> key == a || key == b || key == c,
    ensures
        listing_of(wanted).to_multiset() == seq![wanted[a], wanted[b], wanted[c]].to_multiset(),
{
    let keys = seq![a, b, c];
    let values = seq![wanted[a], wanted[b], wanted[c]];
    assert(keys[0] == a && keys[1] == b && keys[2] == c);
    assert forall|key: K| #[trigger] keys.contains(key) <==> wanted.contains_key(key) by {
        if wanted.contains_key(key) {
            assert(keys.contains(keys[0]) && keys.contains(keys[1]) && keys.contains(keys[2]));
        }
    }
    assert forall|i: int| 0 <= i < keys.len() implies values[i] == wanted[#[trigger] keys[i]] by {
        assert(i == 0 || i == 1 || i == 2);
    }
    assert(enumerates(keys, values, wanted));
    listed_alike(values, wanted);
}

#[verifier::spinoff_prover]
proof fn active_passes(next: u64)
    ensures
        scripted(active_script(next), empty_world()) is Ok,
{
    let script = active_script(next);
    let a = numbered(next);
    let b = numbered(following(next));
    let c = numbered(following(following(next)));
    assert(a != b && b != c && a != c);
    let a1 = script[1]->Append_events;
    let b1 = script[2]->Append_events;
    let c1 = script[3]->Append_events;
    let b2 = script[5]->Append_events;
    let c2 = script[6]->Append_events;
    let w0 = empty_world();
    let w1 = after_step(script[1], w0);
    let w2 = after_step(script[2], w1);
    let w3 = after_step(script[3], w2);
    let w4 = after_step(script[5], w3);
    let w5 = after_step(script[6], w4);
    plays_out(script, w5);
    nothing_listed(active_workflows(w0.histories));
    plays_on(script, 0, w0);
    let e = Seq::<EventView>::empty();
    assert(e + a1 =~= a1);
    assert(e + b1 =~= b1);
    assert(e + c1 =~= c1);
    batch_is_taken(w0, a, b, a1, 0);
    batch_is_taken(w0, a, c, a1, 0);
    plays_on(script, 1, w0);
    batch_is_taken(w1, b, c, b1, 0);
    plays_on(script, 2, w1);
    batch_is_taken(w2, c, c, c1, 0);
    plays_on(script, 3, w2);
    assert(w3.histories =~= Map::<WorkflowId, Seq<EventView>>::empty().insert(a, a1).insert(
        b,
        b1,
    ).insert(c, c1));
    assert(status_of(a1) == WorkflowStatus::Running);
    assert(status_of(b1) == WorkflowStatus::Running);
    assert(status_of(c1) == WorkflowStatus::Running);
    three_listed(active_workflows(w3.histories), a, b, c);
    plays_on(script, 4, w3);
    batch_is_taken(w3, b, c, b2, 1);
    plays_on(script, 5, w3);
    batch_is_taken(w4, c, c, c2, 1);
    plays_on(script, 6, w4);
    assert(w5.histories =~= Map::<WorkflowId, Seq<EventView>>::empty().insert(a, a1).insert(
        b,
        b1 + b2,
    ).insert(c, c1 + c2));
    assert((b1 + b2).last() == b2[0]);
    assert((c1 + c2).last() == c2[0]);
    one_listed(active_workflows(w5.histories), a);
    plays_on(script, 7, w5);
}

/// What a history that starts with a run and ends with a terminal event is summarised as.
proof fn ended_summary(start: EventView, end: EventView)
    requires
        start.body is WorkflowStarted,
        is_terminal(end.body),
    ensures
        summary_of(seq![start, end]) == Some(
            WorkflowSummaryView {
                workflow_id: start.envelope.workflow_id,
                workflow_type: start.body->WorkflowStarted_workflow_type,
                status: lifecycle_status(end.body)->Some_0,
                started_at: start.envelope.recorded_at,
                ended_at: Some(end.envelope.recorded_at),
                parent: None,
            },
        ),
{
    let history = seq![start, end];
    assert(history.last() == end);
    assert(history[0] == start);
}

/// What a history that consists of a start is summarised as.
proof fn running_summary(start: EventView)
    requires
        start.body is WorkflowStarted,
    ensures
        summary_of(seq![start]) == Some(
            WorkflowSummaryView {
                workflow_id: start.envelope.workflow_id,
                workflow_type: start.body->WorkflowStarted_workflow_type,
                status: WorkflowStatus::Running,
                started_at: start.envelope.recorded_at,
                ended_at: None,
                parent: None,
            },
        ),
{
    let history = seq![start];
    assert(history.last() == start);
    assert(history[0] == start);
}

/// The seeding of [`query_applies_all_filters`] is taken by a healthy store that has no history of
/// its workflows.
proof fn query_seeds(next: u64, world: World) -> (seeded: World)
    requires
        healthy(world),
        history_in(world.histories, numbered(next)).len() == 0,
        history_in(world.histories, numbered(following(next))).len() == 0,
        history_in(world.histories, numbered(following(following(next)))).len() == 0,
    ensures
        ({
            let script = query_script(next);
            &&& scripted(script, world) == scripted(script.skip(3), seeded)
            &&& seeded == (World {
                histories: world.histories.insert(
                    numbered(next),
                    script[0]->Append_events,
                ).insert(numbered(following(next)), script[1]->Append_events).insert(
                    numbered(following(following(next))),
                    script[2]->Append_events,
                ),
                ..world
            })
        }),
{
    let script = query_script(next);
    let x = numbered(next);
    let y = numbered(following(next));
    let z = numbered(following(following(next)));
    assert(x != y && y != z && x != z);
    let a = script[0]->Append_events;
    let b = script[1]->Append_events;
    let c = script[2]->Append_events;
    assert(contiguous(b, 0)) by {
        assert forall|i: int| 0 <= i < b.len() implies (#[trigger] b[i]).envelope.seq == 1 + i by {
            assert(i == 0 || i == 1);
        }
    }
    assert(contiguous(c, 0)) by {
        assert forall|i: int| 0 <= i < c.len() implies (#[trigger] c[i]).envelope.seq == 1 + i by {
            assert(i == 0 || i == 1);
        }
    }
    let w1 = after_step(script[0], world);
    let w2 = after_step(script[1], w1);
    let w3 = after_step(script[2], w2);
    assert(script.skip(0) =~= script);
    batch_is_taken(world, x, y, a, 0);
    batch_is_taken(world, x, z, a, 0);
    plays_on(script, 0, world);
    batch_is_taken(w1, y, z, b, 0);
    plays_on(script, 1, w1);
    batch_is_taken(w2, z, z, c, 0);
    plays_on(script, 2, w2);
    assert(history_in(world.histories, x) + a =~= a);
    assert(history_in(world.histories, y) + b =~= b);
    assert(history_in(world.histories, z) + c =~= c);
    assert(w3.histories =~= world.histories.insert(x, a).insert(y, b).insert(z, c));
    w3
}

#[verifier::rlimit(30)]
#[verifier::spinoff_prover]
proof fn query_passes(next: u64)
    ensures
        scripted(query_script(next), empty_world()) is Ok,
{
    let script = query_script(next);
    let x = numbered(next);
    let y = numbered(following(next));
    let z = numbered(following(following(next)));
    assert(x != y && y != z && x != z);
    let a = script[0]->Append_events;
    let b = script[1]->Append_events;
    let c = script[2]->Append_events;
    let w = query_seeds(next, empty_world());
    plays_out(script, w);
    running_summary(a[0]);
    ended_summary(b[0], b[1]);
    ended_summary(c[0], c[1]);
    assert(a =~= seq![a[0]]);
    assert(b =~= seq![b[0], b[1]]);
    assert(c =~= seq![c[0], c[1]]);
    let selected = selected_summaries(w.histories, unfiltered());
    three_listed(selected, x, y, z);
    let listed = seq![selected[x], selected[y], selected[z]];
    mapped_elements_are_the_same(
        listing_of(selected),
        listed,
        |summary: WorkflowSummaryView| summary.workflow_id,
    );
    assert(workflows_of(listed) =~= seq![x, y, z]);
    plays_on(script, 3, w);
    instants_are_ordered(10, 10);
    instants_are_ordered(1, 10);
    let filter = completed_checkout_filter();
    one_listed(selected_summaries(w.histories, filter), y);
    assert(summary_check(
        completed_checkout_checks(y),
        selected_summaries(w.histories, filter)[y],
    ) is Ok) by {
        checks_pass(
            completed_checkout_checks(y),
            selected_summaries(w.histories, filter)[y],
        );
    }
    plays_on(script, 4, w);
    nothing_listed(selected_summaries(w.histories, script[5]->NoSummaries_filter));
    plays_on(script, 5, w);
}

/// A summary whose parts are all as expected passes its checks.
proof fn checks_pass(checks: Seq<SummaryCheckView>, summary: WorkflowSummaryView)
    requires
        forall|i: int|
            0 <= i < checks.len() ==> part_holds(
                (#[trigger] checks[i]).part,
                summary,
            ),
    ensures
        summary_check(checks, summary) is Ok,
    decreases checks.len(),
{
    if checks.len() > 0 {
        let rest = checks.drop_last();
        assert forall|i: int| 0 <= i < rest.len() implies part_holds(
            (#[trigger] rest[i]).part,
            summary,
        ) by {
            assert(rest[i] == checks[i]);
        }
        assert(checks.last() == checks[checks.len() - 1]);
        checks_pass(rest, summary);
    }
}

/// The batch of [`continued_script`] is numbered from one on and has one summary.
proof fn continued_batch(next: u64)
    ensures
        ({
            let events = continued_script(next)[0]->Append_events;
            &&& events.len() == 2
            &&& events =~= seq![events[0], events[1]]
            &&& contiguous(events, 0)
        }),
{
    let events = continued_script(next)[0]->Append_events;
    assert forall|i: int| 0 <= i < events.len() implies (#[trigger] events[i]).envelope.seq == 1
        + i by {
        assert(i == 0 || i == 1);
    }
}

/// A query of [`continued_script`] that selects its one workflow passes.
proof fn continued_query_passes(next: u64, place: int, world: World)
    requires
        place == 1 || place == 2,
        healthy(world),
        world.histories == Map::<WorkflowId, Seq<EventView>>::empty().insert(
            numbered(next),
            continued_script(next)[0]->Append_events,
        ),
    ensures
        modelled(continued_script(next)[place], world) is Ok,
{
    let script = continued_script(next);
    let id = numbered(next);
    let events = script[0]->Append_events;
    continued_batch(next);
    ended_summary(events[0], events[1]);
    let found = selected_summaries(world.histories, script[place]->SoleSummary_filter);
    one_listed(found, id);
    checks_pass(script[place]->SoleSummary_checks, found[id]);
}

#[verifier::spinoff_prover]
proof fn continued_passes(next: u64)
    ensures
        scripted(continued_script(next), empty_world()) is Ok,
{
    let script = continued_script(next);
    let id = numbered(next);
    let events = script[0]->Append_events;
    let w0 = empty_world();
    let w1 = after_step(script[0], w0);
    plays_out(script, w1);
    continued_batch(next);
    batch_is_taken(w0, id, id, events, 0);
    assert(Seq::<EventView>::empty() + events =~= events);
    plays_on(script, 0, w0);
    assert(w1.histories =~= Map::<WorkflowId, Seq<EventView>>::empty().insert(id, events));
    continued_query_passes(next, 1, w1);
    plays_on(script, 1, w1);
    continued_query_passes(next, 2, w1);
    plays_on(script, 2, w1);
}

/// A start opens a run behind those before it.
proof fn opened(history: Seq<EventView>, start: EventView)
    requires
        start.body is WorkflowStarted,
    ensures
        run_chain(history.push(start)) == run_chain(history).push(
            RunSummary {
                run_id: start.body->WorkflowStarted_run_id,
                parent_run_id: start.body->WorkflowStarted_parent_run_id,
                status: WorkflowStatus::Running,
                started_at: start.envelope.recorded_at,
                closed_at: None,
            },
        ),
{
    assert(history.push(start).drop_last() =~= history);
    assert(history.push(start).last() == start);
}

/// A terminal event closes the run that was opened last.
proof fn closed(history: Seq<EventView>, end: EventView)
    requires
        is_terminal(end.body),
        run_chain(history).len() > 0,
    ensures
        run_chain(history.push(end)) == run_chain(history).drop_last().push(
            RunSummary {
                status: lifecycle_status(end.body)->Some_0,
                closed_at: Some(end.envelope.recorded_at),
                ..run_chain(history).last()
            },
        ),
{
    assert(history.push(end).drop_last() =~= history);
    assert(history.push(end).last() == end);
}

/// The batch of [`chain_script`] is numbered from one on and has the runs that the script expects.
proof fn chain_of_two_runs(next: u64)
    ensures
        contiguous(chain_script(next)[1]->Append_events, 0),
        run_chain(chain_script(next)[1]->Append_events) == chain_script(next)[2]->Runs_runs,
{
    let script = chain_script(next);
    let a = script[1]->Append_events;
    let e = Seq::<EventView>::empty();
    assert(run_chain(e) =~= Seq::empty());
    assert forall|i: int| 0 <= i < a.len() implies (#[trigger] a[i]).envelope.seq == 1 + i by {
        assert(i == 0 || i == 1 || i == 2);
    }
    opened(e, a[0]);
    closed(e.push(a[0]), a[1]);
    opened(e.push(a[0]).push(a[1]), a[2]);
    assert(e.push(a[0]).push(a[1]).push(a[2]) =~= a);
    assert(run_chain(a) =~= script[2]->Runs_runs);
}

#[verifier::spinoff_prover]
proof fn chain_passes(next: u64)
    ensures
        scripted(chain_script(next), empty_world()) is Ok,
{
    let script = chain_script(next);
    let id = numbered(following(next));
    let a = script[1]->Append_events;
    let w0 = empty_world();
    let w1 = after_step(script[1], w0);
    plays_out(script, w1);
    let e = Seq::<EventView>::empty();
    assert(run_chain(e) =~= Seq::empty());
    plays_on(script, 0, w0);
    chain_of_two_runs(next);
    batch_is_taken(w0, id, id, a, 0);
    assert(e + a =~= a);
    plays_on(script, 1, w0);
    plays_on(script, 2, w1);
}

/// The batch of the second workflow of [`chains_script`] has the runs that the script expects.
proof fn chain_of_three_runs(next: u64)
    ensures
        run_chain(chains_script(next)[2]->Append_events) == chains_script(next)[3]->Runs_runs,
{
    let script = chains_script(next);
    let b = script[2]->Append_events;
    let e = Seq::<EventView>::empty();
    assert(run_chain(e) =~= Seq::empty());
    let b1 = e.push(b[0]);
    let b2 = b1.push(b[1]);
    let b3 = b2.push(b[2]);
    let b4 = b3.push(b[3]);
    let b5 = b4.push(b[4]);
    let b6 = b5.push(b[5]);
    assert(b6 =~= b);
    opened(e, b[0]);
    closed(b1, b[1]);
    opened(b2, b[2]);
    closed(b3, b[3]);
    opened(b4, b[4]);
    closed(b5, b[5]);
    let runs = script[3]->Runs_runs;
    assert(run_chain(b2) =~= seq![runs[0]]);
    assert(run_chain(b4) =~= seq![runs[0], runs[1]]);
    assert(run_chain(b6) =~= runs);
}

/// The batch of the first workflow of [`chains_script`] has the run that the script expects.
proof fn chain_of_one_run(next: u64)
    ensures
        run_chain(chains_script(next)[0]->Append_events) == chains_script(next)[1]->Runs_runs,
{
    let script = chains_script(next);
    let a = script[0]->Append_events;
    let e = Seq::<EventView>::empty();
    assert(run_chain(e) =~= Seq::empty());
    opened(e, a[0]);
    assert(e.push(a[0]) =~= a);
    assert(run_chain(a) =~= script[1]->Runs_runs);
}

/// The batches of [`chains_script`] are numbered from one on.
proof fn chain_batches_are_contiguous(next: u64)
    ensures
        contiguous(chains_script(next)[0]->Append_events, 0),
        contiguous(chains_script(next)[2]->Append_events, 0),
{
    let b = chains_script(next)[2]->Append_events;
    assert(contiguous(b, 0)) by {
        assert forall|i: int| 0 <= i < b.len() implies (#[trigger] b[i]).envelope.seq == 1 + i by {
            assert(i == 0 || i == 1 || i == 2 || i == 3 || i == 4 || i == 5);
        }
    }
}

#[verifier::spinoff_prover]
proof fn chains_pass(next: u64)
    ensures
        scripted(chains_script(next), empty_world()) is Ok,
{
    let script = chains_script(next);
    let single = numbered(next);
    let id = numbered(following(next));
    assert(single != id);
    let a = script[0]->Append_events;
    let b = script[2]->Append_events;
    let w0 = empty_world();
    let w1 = after_step(script[0], w0);
    let w2 = after_step(script[2], w1);
    plays_out(script, w2);
    let e = Seq::<EventView>::empty();
    batch_is_taken(w0, single, id, a, 0);
    assert(e + a =~= a);
    plays_on(script, 0, w0);
    chain_of_one_run(next);
    plays_on(script, 1, w1);
    chain_batches_are_contiguous(next);
    batch_is_taken(w1, id, id, b, 0);
    assert(e + b =~= b);
    plays_on(script, 2, w1);
    chain_of_three_runs(next);
    plays_on(script, 3, w2);
}

#[verifier::spinoff_prover]
proof fn due_passes(next: u64)
    ensures
        scripted(due_script(next), empty_world()) is Ok,
{
    let script = due_script(next);
    let id = numbered(next);
    let w0 = empty_world();
    let w1 = after_step(script[0], w0);
    let w2 = after_step(script[1], w1);
    let w3 = after_step(script[2], w2);
    plays_out(script, w3);
    plays_on(script, 0, w0);
    plays_on(script, 1, w1);
    plays_on(script, 2, w2);
    instants_are_ordered(30, 20);
    instants_are_ordered(20, 20);
    instants_are_ordered(10, 20);
    let past = (id, TimerIdView::Anonymous(1));
    let boundary = (id, TimerIdView::Anonymous(2));
    two_listed(due_timers(w3.timers, instant(20)), past, boundary);
    plays_on(script, 3, w3);
}

#[verifier::spinoff_prover]
proof fn reschedule_passes(next: u64)
    ensures
        scripted(reschedule_script(next), empty_world()) is Ok,
{
    let script = reschedule_script(next);
    let id = numbered(next);
    let w0 = empty_world();
    let w1 = after_step(script[0], w0);
    let w2 = after_step(script[1], w1);
    plays_out(script, w2);
    plays_on(script, 0, w0);
    plays_on(script, 1, w1);
    instants_are_ordered(30, 10);
    instants_are_ordered(30, 30);
    nothing_listed(due_timers(w2.timers, instant(10)));
    plays_on(script, 2, w2);
    one_listed(due_timers(w2.timers, instant(30)), (id, TimerIdView::Anonymous(1)));
    plays_on(script, 3, w2);
}

/// A finite map can be listed.
proof fn finite_maps_are_listed<K, V>(wanted: Map<K, V>)
    requires
        wanted.dom().finite(),
    ensures
        exists|values: Seq<V>| lists(values, wanted),
    decreases wanted.dom().len(),
{
    if wanted.dom().len() == 0 {
        let keys = Seq::<K>::empty();
        let values = Seq::<V>::empty();
        assert forall|key: K| !#[trigger] wanted.contains_key(key) by {
            if wanted.contains_key(key) {
                assert(wanted.dom().contains(key));
            }
        }
        assert(enumerates(keys, values, wanted));
        assert(lists(values, wanted));
    } else {
        let key = wanted.dom().choose();
        let rest = wanted.remove(key);
        assert(rest.dom() =~= wanted.dom().remove(key));
        finite_maps_are_listed(rest);
        let some = choose|values: Seq<V>| lists(values, rest);
        let keys = choose|keys: Seq<K>| #[trigger] enumerates(keys, some, rest);
        let all = keys.push(key);
        let values = some.push(wanted[key]);
        assert(!keys.contains(key));
        assert forall|other: K| #[trigger] all.contains(other) <==> wanted.contains_key(other) by {
            if wanted.contains_key(other) {
                if other == key {
                    assert(all[all.len() - 1] == key);
                } else {
                    assert(rest.contains_key(other));
                    assert(keys.contains(other));
                    let i = choose|i: int| 0 <= i < keys.len() && keys[i] == other;
                    assert(all[i] == other);
                }
            }
            if all.contains(other) && other != key {
                let i = choose|i: int| 0 <= i < all.len() && all[i] == other;
                assert(keys[i] == other);
                assert(keys.contains(other));
            }
        }
        assert(all.no_duplicates()) by {
            assert forall|i: int, j: int|
                0 <= i < all.len() && 0 <= j < all.len() && i != j implies all[i] != all[j] by {
                if i == keys.len() {
                    assert(keys.contains(keys[j]));
                } else if j == keys.len() {
                    assert(keys.contains(keys[i]));
                }
            }
        }
        assert forall|i: int| 0 <= i < all.len() implies values[i] == wanted[#[trigger] all[i]] by {
            if i < keys.len() {
                assert(keys.contains(keys[i]));
                assert(some[i] == rest[keys[i]]);
            }
        }
        assert(enumerates(all, values, wanted));
        assert(lists(values, wanted));
    }
}

/// A workflow more than the scenario seeds is found: with a healthy store that has a summary of
/// another workflow, [`query_applies_all_filters`] ends in the contract failure of the query without
/// conditions.
pub proof fn surplus_workflows_are_found(next: u64, world: World, surplus: WorkflowId)
    requires
        healthy(world),
        world.histories.dom().finite(),
        history_in(world.histories, numbered(next)).len() == 0,
        history_in(world.histories, numbered(following(next))).len() == 0,
        history_in(world.histories, numbered(following(following(next)))).len() == 0,
        surplus != numbered(next),
        surplus != numbered(following(next)),
        surplus != numbered(following(following(next))),
        world.histories.contains_key(surplus),
        summary_of(world.histories[surplus]) matches Some(summary) && summary.workflow_id
            == surplus,
    ensures
        scripted(query_script(next), world) == Err::<(), StoreErrorView>(
            contract_failure(every_workflow_message()),
        ),
{
    broadcast use group_to_multiset_ensures;

    let script = query_script(next);
    let x = numbered(next);
    let y = numbered(following(next));
    let z = numbered(following(following(next)));
    let w = query_seeds(next, world);
    let selected = selected_summaries(w.histories, unfiltered());
    assert(w.histories.dom() =~= world.histories.dom().insert(x).insert(y).insert(z));
    assert(selected.dom().subset_of(w.histories.dom()));
    vstd::set_lib::lemma_set_subset_finite(w.histories.dom(), selected.dom());
    finite_maps_are_listed(selected);
    let listed = listing_of(selected);
    let keys = choose|keys: Seq<WorkflowId>| #[trigger] enumerates(keys, listed, selected);
    assert(selected.contains_key(surplus));
    assert(keys.contains(surplus));
    let i = choose|i: int| 0 <= i < keys.len() && keys[i] == surplus;
    let found = workflows_of(listed);
    assert(found[i] == surplus);
    assert(found.contains(surplus));
    let expected = seq![x, y, z];
    if found.to_multiset() == expected.to_multiset() {
        same_elements_contain(found, expected, surplus);
        let j = choose|j: int| 0 <= j < expected.len() && expected[j] == surplus;
        assert(j == 0 || j == 1 || j == 2);
        assert(false);
    }
    assert(script.skip(3)[0] == script[3]);
}

/// The number of the first workflow of each scenario of the suite.
pub open spec fn first_number(place: int) -> u64 {
    if place <= 5 {
        (place + 1) as u64
    } else if place == 6 {
        9
    } else if place == 7 {
        13
    } else if place == 8 {
        14
    } else if place == 9 {
        16
    } else if place == 10 {
        18
    } else {
        19
    }
}

/// The place of the scenario of two appends at the same time.
pub open spec fn race_place() -> int {
    3
}

/// The number of scenarios.
pub open spec fn scenario_count() -> nat {
    12
}

/// The scripts of the suite, by place.
pub open spec fn suite_script(place: int) -> Seq<StepView> {
    let next = first_number(place);
    if place == 0 {
        round_trip_script(next)
    } else if place == 1 {
        batches_script(next)
    } else if place == 2 {
        stale_script(next)
    } else if place == 4 {
        large_script(next)
    } else if place == 5 {
        active_script(next)
    } else if place == 6 {
        query_script(next)
    } else if place == 7 {
        continued_script(next)
    } else if place == 8 {
        chain_script(next)
    } else if place == 9 {
        chains_script(next)
    } else if place == 10 {
        due_script(next)
    } else {
        reschedule_script(next)
    }
}

/// What comes of a scenario of the suite with a store that keeps its contract.
pub open spec fn suite_outcome(place: int, world: World) -> Result<(), StoreErrorView> {
    if place == race_place() {
        race_outcome(first_number(place), world)
    } else {
        scripted(suite_script(place), world)
    }
}

/// A scenario of the suite was run, from the first exchange of the trial to its last.
pub open spec fn scenario_ran<S: StoreUnderTest>(
    place: int,
    trial: Trial<S>,
    outcome: Result<(), StoreErrorView>,
) -> bool {
    &&& if place == race_place() {
        raced(first_number(place), trial.log(), outcome)
    } else {
        followed(suite_script(place), trial.log(), outcome)
    }
    &&& S::keeps_contract() ==> outcome == suite_outcome(place, trial.given().world())
}

/// The suite was run: every scenario in its place, on a store of its own that was made for it, up to
/// the first that failed, whose outcome is that of the suite.
pub open spec fn suite_ran<S: StoreUnderTest, F: Fn() -> S>(
    make_store: F,
    trials: Seq<Trial<S>>,
    outcome: Result<(), StoreErrorView>,
) -> bool {
    &&& 0 < trials.len() <= scenario_count()
    &&& trials.len() == scenario_count() || outcome is Err
    &&& forall|i: int|
        0 <= i < trials.len() ==> {
            &&& make_store.ensures((), (#[trigger] trials[i]).given())
            &&& scenario_ran(
                i,
                trials[i],
                if i < trials.len() - 1 {
                    Ok(())
                } else {
                    outcome
                },
            )
        }
}

/// A store that holds nothing, works and keeps the contract of event stores passes every scenario.
pub proof fn fresh_stores_pass(place: int)
    requires
        0 <= place < scenario_count(),
    ensures
        suite_outcome(place, empty_world()) is Ok,
{
    let next = first_number(place);
    round_trip_passes(next);
    batches_pass(next);
    stale_passes(next);
    race_passes(next);
    large_passes(next);
    active_passes(next);
    query_passes(next);
    continued_passes(next);
    chain_passes(next);
    chains_pass(next);
    due_passes(next);
    reschedule_passes(next);
}

/// The trials of a suite, and its outcome.
pub struct SuiteReport<S> {
    /// One trial for every scenario that was run.
    pub trials: Vec<Trial<S>>,
    /// The outcome of the suite.
    pub outcome: Result<(), StoreError>,
}

/// A trial that was made anew shows the exchanges of its scenario only.
proof fn whole_log(log: Seq<Exchange>)
    ensures
        log.skip(0) == log,
{
    assert(log.skip(0) =~= log);
}

/// Runs the scenario in its place.
fn run_scenario<S: StoreUnderTest>(
    place: usize,
    trial: &mut Trial<S>,
    ids: &mut IdSource,
) -> (outcome: Result<(), StoreError>)
    requires
        place < scenario_count(),
        old(trial).log() == Seq::<Exchange>::empty(),
        old(trial).world() == old(trial).given().world(),
        old(ids).next == first_number(place as int),
    ensures
        final(trial).given() == old(trial).given(),
        scenario_ran(place as int, *final(trial), store_outcome(outcome)),
        place + 1 < scenario_count() ==> final(ids).next == first_number(place + 1),
{
    let outcome = if place == 0 {
        append_and_read_history_round_trip(trial, ids)
    } else if place == 1 {
        multi_batch_append_advances_sequence(trial, ids)
    } else if place == 2 {
        stale_expected_sequence_writes_nothing(trial, ids)
    } else if place == 3 {
        concurrent_appends_on_same_expected_sequence_has_one_winner(trial, ids)
    } else if place == 4 {
        large_history_round_trip(trial, ids)
    } else if place == 5 {
        list_active_reflects_projected_status(trial, ids)
    } else if place == 6 {
        query_applies_all_filters(trial, ids)
    } else if place == 7 {
        continued_as_new_query_returns_correct_status_and_ended_at(trial, ids)
    } else if place == 8 {
        read_run_chain_orders_continuations(trial, ids)
    } else if place == 9 {
        read_run_chain_single_and_multi_continuations(trial, ids)
    } else if place == 10 {
        expired_timers_include_due_boundary_and_exclude_future(trial, ids)
    } else {
        rescheduling_same_timer_replaces_prior_fire_at(trial, ids)
    };
    proof {
        whole_log(trial.log());
    }
    outcome
}

/// Runs every scenario on a store of its own, up to the first failure, and keeps the trials.
pub fn run_scenarios<S: StoreUnderTest, F: Fn() -> S>(make_store: &F) -> (report: SuiteReport<S>)
    requires
        make_store.requires(()),
    ensures
        suite_ran(*make_store, report.trials@, store_outcome(report.outcome)),
{
    let mut ids = IdSource::new();
    let mut trials: Vec<Trial<S>> = Vec::new();
    let mut place: usize = 0;
    while place < 12
        invariant
            place <= 12,
            make_store.requires(()),
            trials@.len() == place,
            place < 12 ==> ids.next == first_number(place as int),
            forall|i: int|
                0 <= i < trials@.len() ==> make_store.ensures((), (#[trigger] trials@[i]).given())
                    && scenario_ran(i, trials@[i], Ok(())),
        decreases 12 - place,
    {
        let mut trial = Trial::new(make_store());
        let outcome = run_scenario(place, &mut trial, &mut ids);
        trials.push(trial);
        match outcome {
            Ok(()) => {},
            Err(error) => {
                return SuiteReport { trials, outcome: Err(error) };
            },
        }
        place += 1;
    }
    SuiteReport { trials, outcome: Ok(()) }
}

/// Runs every scenario on a store of its own, up to the first failure.
pub fn run_event_store_suite<S: StoreUnderTest, F: Fn() -> S>(make_store: F) -> (outcome: Result<
    (),
    StoreError,
>)
    requires
        make_store.requires(()),
    ensures
        exists|trials: Seq<Trial<S>>| #[trigger]
            suite_ran(make_store, trials, store_outcome(outcome)),
        S::keeps_contract() && (forall|store: S|
            make_store.ensures((), store) ==> #[trigger] store.world() == empty_world())
            ==> outcome is Ok,
{
    let report = run_scenarios(&make_store);
    proof {
        let trials = report.trials@;
        assert(suite_ran(make_store, trials, store_outcome(report.outcome)));
        if S::keeps_contract() && forall|store: S|
            make_store.ensures((), store) ==> #[trigger] store.world() == empty_world() {
            let last = trials.len() - 1;
            assert(make_store.ensures((), trials[last].given()));
            assert(trials[last].given().world() == empty_world());
            fresh_stores_pass(last);
        }
    }
    report.outcome
}

/// A store that passes the first scenario knows nothing of a workflow at first, takes its events, and
/// gives them back as they were appended.
pub proof fn passing_stores_give_events_back(next: u64, exchanges: Seq<Exchange>)
    requires
        followed(round_trip_script(next), exchanges, Ok(())),
    ensures
        exchanges.len() == 3,
        exchanges[0] matches Exchange::ReadHistory { workflow_id: unknown, reply: nothing }
            && exchanges[1] matches Exchange::Append {
            workflow_id,
            events,
            expected_seq,
            reply: taken,
        } && exchanges[2] matches Exchange::ReadHistory { workflow_id: read, reply: history } && {
            &&& unknown == workflow_id
            &&& nothing is Ok && nothing->Ok_0.len() == 0
            &&& expected_seq == 0
            &&& events.len() > 1
            &&& taken is Ok
            &&& read == workflow_id
            &&& history == Ok::<Seq<EventView>, StoreErrorView>(events)
        },
{
    let script = round_trip_script(next);
    assert(verdict(script[0], exchanges[0]) == Some(Ok::<(), StoreErrorView>(())));
    assert(verdict(script[1], exchanges[1]) == Some(Ok::<(), StoreErrorView>(())));
    assert(verdict(script[2], exchanges[2]) == Some(Ok::<(), StoreErrorView>(())));
}

/// A store that passes the second scenario takes a batch behind the last event of another, and gives
/// back both, one behind the other.
pub proof fn passing_stores_take_batches_at_the_head(next: u64, exchanges: Seq<Exchange>)
    requires
        followed(batches_script(next), exchanges, Ok(())),
    ensures
        exchanges.len() == 3,
        exchanges[0] matches Exchange::Append {
            workflow_id,
            events: first,
            expected_seq: start,
            reply: first_taken,
        } && exchanges[1] matches Exchange::Append {
            workflow_id: same,
            events: second,
            expected_seq: head,
            reply: second_taken,
        } && exchanges[2] matches Exchange::ReadHistory { workflow_id: read, reply: history } && {
            &&& same == workflow_id && read == workflow_id
            &&& first_taken is Ok && second_taken is Ok
            &&& first.len() > 0 && second.len() > 0
            &&& start == 0 && head == first.len()
            &&& history == Ok::<Seq<EventView>, StoreErrorView>(first + second)
        },
{
    let script = batches_script(next);
    assert(verdict(script[0], exchanges[0]) == Some(Ok::<(), StoreErrorView>(())));
    assert(verdict(script[1], exchanges[1]) == Some(Ok::<(), StoreErrorView>(())));
    assert(verdict(script[2], exchanges[2]) == Some(Ok::<(), StoreErrorView>(())));
}

/// A store that passes the third scenario refuses a batch under a stale head with the head that it
/// holds, and keeps nothing of it.
pub proof fn passing_stores_refuse_stale_writers(next: u64, exchanges: Seq<Exchange>)
    requires
        followed(stale_script(next), exchanges, Ok(())),
    ensures
        exchanges.len() == 3,
        exchanges[0] matches Exchange::Append {
            workflow_id,
            events: first,
            expected_seq: start,
            reply: taken,
        } && exchanges[1] matches Exchange::Append {
            workflow_id: same,
            events: stale,
            expected_seq: head,
            reply: refused,
        } && exchanges[2] matches Exchange::ReadHistory { workflow_id: read, reply: history } && {
            &&& same == workflow_id && read == workflow_id
            &&& taken is Ok
            &&& start == 0 && head == 0
            &&& first.len() > 0 && stale.len() > 0
            &&& refused == Err::<(), StoreErrorView>(
                StoreErrorView::SequenceConflict { expected: 0, found: first.len() as u64 },
            )
            &&& history == Ok::<Seq<EventView>, StoreErrorView>(first)
        },
{
    let script = stale_script(next);
    assert(verdict(script[0], exchanges[0]) == Some(Ok::<(), StoreErrorView>(())));
    assert(verdict(script[1], exchanges[1]) == Some(Ok::<(), StoreErrorView>(())));
    assert(verdict(script[2], exchanges[2]) == Some(Ok::<(), StoreErrorView>(())));
}

/// Of two batches that are appended at the same time, a store that passes takes exactly one, refuses the
/// other with the head behind the one that it took, and holds that one only.
pub proof fn passing_stores_let_one_writer_win(next: u64, exchanges: Seq<Exchange>)
    requires
        raced(next, exchanges, Ok(())),
    ensures
        exchanges.len() == 2,
        exchanges[0] matches Exchange::AppendBoth {
            workflow_id,
            first,
            second,
            expected_seq,
            replies,
        } && exchanges[1] matches Exchange::ReadHistory { workflow_id: read, reply: history } && {
            &&& read == workflow_id
            &&& expected_seq == 0
            &&& replies.0 is Ok <==> replies.1 is Err
            &&& replies.0 is Ok ==> replies.1 == Err::<(), StoreErrorView>(
                StoreErrorView::SequenceConflict { expected: 0, found: first.len() as u64 },
            ) && history == Ok::<Seq<EventView>, StoreErrorView>(first)
            &&& replies.1 is Ok ==> replies.0 == Err::<(), StoreErrorView>(
                StoreErrorView::SequenceConflict { expected: 0, found: second.len() as u64 },
            ) && history == Ok::<Seq<EventView>, StoreErrorView>(second)
        },
{
}

/// A store that passes the scenario of a long history gives back every event of every batch that was
/// appended, in the order of the batches.
pub proof fn passing_stores_give_long_histories_back(next: u64, exchanges: Seq<Exchange>, i: int)
    requires
        followed(large_script(next), exchanges, Ok(())),
        0 <= i < 5,
    ensures
        exchanges.len() == 6,
        exchanges[i] matches Exchange::Append { workflow_id, events, expected_seq, reply: taken }
            && exchanges[5] matches Exchange::ReadHistory { workflow_id: read, reply: history } && {
            &&& read == workflow_id
            &&& taken is Ok
            &&& history is Ok
            &&& history->Ok_0.len() == 125
            &&& expected_seq == 25 * i
            &&& events.len() == 25
            &&& events == history->Ok_0.subrange(25 * i, 25 * i + 25)
        },
{
    let script = large_script(next);
    let id = numbered(next);
    assert(script[i] == long_batch(id, i));
    assert(verdict(script[i], exchanges[i]) == Some(Ok::<(), StoreErrorView>(())));
    assert(verdict(script[5], exchanges[5]) == Some(Ok::<(), StoreErrorView>(())));
    assert(long_events(id, 25 * i, 25 * i + 25) =~= long_events(id, 0, 125).subrange(
        25 * i,
        25 * i + 25,
    ));
}

/// A store that passes lists nothing as active at first, then the workflows that were started, and
/// behind the end of two of them the one that is left.
pub proof fn passing_stores_list_what_is_active(next: u64, exchanges: Seq<Exchange>)
    requires
        followed(active_script(next), exchanges, Ok(())),
    ensures
        exchanges.len() == 8,
        exchanges[0] matches Exchange::ListActive { reply: nothing } && exchanges[1] matches
            Exchange::Append { workflow_id: a, .. } && exchanges[2] matches Exchange::Append {
            workflow_id: b,
            ..
        } && exchanges[3] matches Exchange::Append { workflow_id: c, .. } && exchanges[4] matches
            Exchange::ListActive { reply: started } && exchanges[5] matches Exchange::Append {
            workflow_id: ended,
            events: end,
            ..
        } && exchanges[6] matches Exchange::Append {
            workflow_id: continued,
            events: continuation,
            ..
        } && exchanges[7] matches Exchange::ListActive { reply: left } && {
            &&& nothing is Ok && nothing->Ok_0.len() == 0
            &&& started is Ok && started->Ok_0.to_multiset() == seq![a, b, c].to_multiset()
            &&& ended == b && end.last().body is WorkflowCompleted
            &&& continued == c && continuation.last().body is WorkflowContinuedAsNew
            &&& left is Ok && left->Ok_0.to_multiset() == seq![a].to_multiset()
        },
{
    let script = active_script(next);
    assert forall|i: int| 0 <= i < 8 implies verdict(script[i], #[trigger] exchanges[i]) == Some(
        Ok::<(), StoreErrorView>(()),
    ) by {}
    assert(verdict(script[0], exchanges[0]) is Some);
    assert(verdict(script[1], exchanges[1]) is Some);
    assert(verdict(script[2], exchanges[2]) is Some);
    assert(verdict(script[3], exchanges[3]) is Some);
    assert(verdict(script[4], exchanges[4]) is Some);
    assert(verdict(script[5], exchanges[5]) is Some);
    assert(verdict(script[6], exchanges[6]) is Some);
    assert(verdict(script[7], exchanges[7]) is Some);
}

/// A store that passes tells the runs of a workflow as its events project them, oldest first, and none of
/// a workflow without events.
pub proof fn passing_stores_tell_the_runs(next: u64, exchanges: Seq<Exchange>)
    requires
        followed(chain_script(next), exchanges, Ok(())),
    ensures
        exchanges.len() == 3,
        exchanges[0] matches Exchange::ReadRunChain { workflow_id: unknown, reply: nothing }
            && exchanges[1] matches Exchange::Append { workflow_id, events, reply: taken, .. }
            && exchanges[2] matches Exchange::ReadRunChain { workflow_id: read, reply: runs } && {
            &&& nothing is Ok && nothing->Ok_0.len() == 0
            &&& taken is Ok
            &&& read == workflow_id
            &&& runs == Ok::<Seq<RunSummary>, StoreErrorView>(run_chain(events))
            &&& run_chain(events).len() == 2
        },
{
    let script = chain_script(next);
    chain_of_two_runs(next);
    assert(verdict(script[0], exchanges[0]) == Some(Ok::<(), StoreErrorView>(())));
    assert(verdict(script[1], exchanges[1]) == Some(Ok::<(), StoreErrorView>(())));
    assert(verdict(script[2], exchanges[2]) == Some(Ok::<(), StoreErrorView>(())));
}

/// A store that passes tells of several workflows the runs that the events of each project.
pub proof fn passing_stores_tell_the_runs_of_each(next: u64, exchanges: Seq<Exchange>)
    requires
        followed(chains_script(next), exchanges, Ok(())),
    ensures
        exchanges.len() == 4,
        exchanges[0] matches Exchange::Append { workflow_id: single, events: start, .. }
            && exchanges[1] matches Exchange::ReadRunChain { workflow_id: first, reply: one }
            && exchanges[2] matches Exchange::Append { workflow_id: chained, events, .. }
            && exchanges[3] matches Exchange::ReadRunChain { workflow_id: second, reply: three } && {
            &&& first == single && second == chained
            &&& one == Ok::<Seq<RunSummary>, StoreErrorView>(run_chain(start))
            &&& three == Ok::<Seq<RunSummary>, StoreErrorView>(run_chain(events))
            &&& run_chain(start).len() == 1
            &&& run_chain(events).len() == 3
        },
{
    let script = chains_script(next);
    chain_of_one_run(next);
    chain_of_three_runs(next);
    assert(verdict(script[0], exchanges[0]) == Some(Ok::<(), StoreErrorView>(())));
    assert(verdict(script[1], exchanges[1]) == Some(Ok::<(), StoreErrorView>(())));
    assert(verdict(script[2], exchanges[2]) == Some(Ok::<(), StoreErrorView>(())));
    assert(verdict(script[3], exchanges[3]) == Some(Ok::<(), StoreErrorView>(())));
}

/// A store that passes tells the timers that are due at a time, that time included, and none that is due
/// later.
pub proof fn passing_stores_tell_due_timers(next: u64, exchanges: Seq<Exchange>)
    requires
        followed(due_script(next), exchanges, Ok(())),
    ensures
        exchanges.len() == 4,
        exchanges[0] matches Exchange::ScheduleTimer { fire_at: last, .. } && exchanges[1] matches
            Exchange::ScheduleTimer {
            workflow_id: same,
            timer_id: middle_timer,
            fire_at: middle,
            ..
        } && exchanges[2] matches Exchange::ScheduleTimer {
            workflow_id,
            timer_id: first_timer,
            fire_at: first,
            ..
        } && exchanges[3] matches Exchange::ExpiredTimers { as_of, reply: due } && {
            &&& as_of == middle
            &&& first.seconds() < middle.seconds() < last.seconds()
            &&& due is Ok && due->Ok_0.to_multiset() == seq![
                TimerEntryView { workflow_id, timer_id: first_timer, fire_at: first },
                TimerEntryView { workflow_id: same, timer_id: middle_timer, fire_at: middle },
            ].to_multiset()
        },
{
    let script = due_script(next);
    whole_second_parts((1_700_000_000 + 10) as i64);
    whole_second_parts((1_700_000_000 + 20) as i64);
    whole_second_parts((1_700_000_000 + 30) as i64);
    assert(verdict(script[0], exchanges[0]) == Some(Ok::<(), StoreErrorView>(())));
    assert(verdict(script[1], exchanges[1]) == Some(Ok::<(), StoreErrorView>(())));
    assert(verdict(script[2], exchanges[2]) == Some(Ok::<(), StoreErrorView>(())));
    assert(verdict(script[3], exchanges[3]) == Some(Ok::<(), StoreErrorView>(())));
}

/// A store that passes forgets the earlier time of a timer that is scheduled again: the timer is due at
/// its later time only.
pub proof fn passing_stores_replace_fire_times(next: u64, exchanges: Seq<Exchange>)
    requires
        followed(reschedule_script(next), exchanges, Ok(())),
    ensures
        exchanges.len() == 4,
        exchanges[0] matches Exchange::ScheduleTimer {
            workflow_id,
            timer_id,
            fire_at: earlier,
            ..
        } && exchanges[1] matches Exchange::ScheduleTimer {
            workflow_id: same,
            timer_id: again,
            fire_at: later,
            ..
        } && exchanges[2] matches Exchange::ExpiredTimers { as_of: first, reply: nothing }
            && exchanges[3] matches Exchange::ExpiredTimers { as_of: second, reply: due } && {
            &&& same == workflow_id && again == timer_id
            &&& earlier.seconds() < later.seconds()
            &&& first == earlier && second == later
            &&& nothing is Ok && nothing->Ok_0.len() == 0
            &&& due is Ok && due->Ok_0.to_multiset() == seq![
                TimerEntryView { workflow_id, timer_id, fire_at: later },
            ].to_multiset()
        },
{
    let script = reschedule_script(next);
    whole_second_parts((1_700_000_000 + 10) as i64);
    whole_second_parts((1_700_000_000 + 30) as i64);
    assert(verdict(script[0], exchanges[0]) == Some(Ok::<(), StoreErrorView>(())));
    assert(verdict(script[1], exchanges[1]) == Some(Ok::<(), StoreErrorView>(())));
    assert(verdict(script[2], exchanges[2]) == Some(Ok::<(), StoreErrorView>(())));
    assert(verdict(script[3], exchanges[3]) == Some(Ok::<(), StoreErrorView>(())));
}

/// A store that passes the query scenario finds every workflow without conditions, only the completed one
/// under conditions that it alone meets, told with its start and its end, and none of a parent that no
/// workflow has.
pub proof fn passing_stores_apply_every_condition(next: u64, exchanges: Seq<Exchange>)
    requires
        followed(query_script(next), exchanges, Ok(())),
    ensures
        exchanges.len() == 6,
        exchanges[0] matches Exchange::Append { workflow_id: a, .. } && exchanges[1] matches
            Exchange::Append { workflow_id: b, events, .. } && exchanges[2] matches
            Exchange::Append { workflow_id: c, .. } && exchanges[3] matches Exchange::Query {
            reply: all,
            ..
        } && exchanges[4] matches Exchange::Query { filter, reply: sole } && exchanges[5] matches
            Exchange::Query { filter: of_parent, reply: nothing } && {
            &&& all is Ok && workflows_of(all->Ok_0).to_multiset() == seq![a, b, c].to_multiset()
            &&& filter.workflow_type is Some && filter.status == Some(WorkflowStatus::Completed)
            &&& filter.started_after == Some(events[0].envelope.recorded_at)
            &&& filter.started_before == Some(events[0].envelope.recorded_at)
            &&& sole is Ok && sole->Ok_0.len() == 1
            &&& sole->Ok_0[0].workflow_id == b
            &&& events[1].body is WorkflowCompleted
            &&& sole->Ok_0[0].status == WorkflowStatus::Completed
            &&& Some(sole->Ok_0[0].workflow_type) == filter.workflow_type
            &&& sole->Ok_0[0].started_at == events[0].envelope.recorded_at
            &&& sole->Ok_0[0].ended_at == Some(events[1].envelope.recorded_at)
            &&& of_parent.parent is Some
            &&& nothing is Ok && nothing->Ok_0.len() == 0
        },
{
    let script = query_script(next);
    assert(verdict(script[0], exchanges[0]) == Some(Ok::<(), StoreErrorView>(())));
    assert(verdict(script[1], exchanges[1]) == Some(Ok::<(), StoreErrorView>(())));
    assert(verdict(script[2], exchanges[2]) == Some(Ok::<(), StoreErrorView>(())));
    assert(verdict(script[3], exchanges[3]) == Some(Ok::<(), StoreErrorView>(())));
    assert(verdict(script[4], exchanges[4]) == Some(Ok::<(), StoreErrorView>(())));
    assert(verdict(script[5], exchanges[5]) == Some(Ok::<(), StoreErrorView>(())));
    let checks = completed_checkout_checks(numbered(following(next)));
    if let Exchange::Query { filter, reply } = exchanges[4] {
        summary_steps_pass_on_their_summaries(
            filter,
            Seq::empty(),
            checks,
            "combined type/status/time-range query should require all filters to match inclusively"@,
            reply,
        );
        assert(part_holds(checks[0].part, reply->Ok_0[0]));
        assert(part_holds(checks[1].part, reply->Ok_0[0]));
        assert(part_holds(checks[2].part, reply->Ok_0[0]));
        assert(part_holds(checks[3].part, reply->Ok_0[0]));
        assert(part_holds(checks[4].part, reply->Ok_0[0]));
    }
}

/// A store that passes tells a workflow that continued as new by that status and by the time at which it
/// did, with and without asking for the status.
pub proof fn passing_stores_tell_continued_workflows(next: u64, exchanges: Seq<Exchange>, i: int)
    requires
        followed(continued_script(next), exchanges, Ok(())),
        1 <= i <= 2,
    ensures
        exchanges.len() == 3,
        exchanges[0] matches Exchange::Append { workflow_id, events, .. } && exchanges[i] matches
            Exchange::Query { filter, reply: sole } && {
            &&& i == 1 ==> filter.status is None
            &&& i == 2 ==> filter.status == Some(WorkflowStatus::ContinuedAsNew)
            &&& events.last().body is WorkflowContinuedAsNew
            &&& sole is Ok && sole->Ok_0.len() == 1
            &&& sole->Ok_0[0].workflow_id == workflow_id
            &&& sole->Ok_0[0].status == WorkflowStatus::ContinuedAsNew
            &&& sole->Ok_0[0].ended_at == Some(events.last().envelope.recorded_at)
        },
{
    let script = continued_script(next);
    assert(verdict(script[0], exchanges[0]) == Some(Ok::<(), StoreErrorView>(())));
    assert(verdict(script[i], exchanges[i]) == Some(Ok::<(), StoreErrorView>(())));
    if let Exchange::Query { filter, reply } = exchanges[i] {
        if let StepView::SoleSummary { message, checks, .. } = script[i] {
            summary_steps_pass_on_their_summaries(filter, Seq::empty(), checks, message, reply);
            assert(part_holds(checks[0].part, reply->Ok_0[0]));
            assert(part_holds(checks[1].part, reply->Ok_0[0]));
            assert(part_holds(checks[2].part, reply->Ok_0[0]));
        }
    }
}

/// No two scenarios of the suite work on the same workflow: each starts with a number behind those of
/// the scenarios before it.
pub proof fn scenarios_have_workflows_of_their_own(place: int)
    requires
        0 <= place,
        place + 1 < scenario_count(),
    ensures
        first_number(place) < first_number(place + 1),
        first_number(0) == 1,
{
}

/// A suite that passes ran every scenario, and each of them passed; one that fails ended with the
/// scenario that did, behind scenarios that passed.
pub proof fn suites_pass_when_every_scenario_does<S: StoreUnderTest, F: Fn() -> S>(
    make_store: F,
    trials: Seq<Trial<S>>,
    outcome: Result<(), StoreErrorView>,
    place: int,
)
    requires
        suite_ran(make_store, trials, outcome),
        0 <= place < trials.len(),
    ensures
        outcome is Ok ==> trials.len() == 12,
        outcome is Ok || place < trials.len() - 1 ==> scenario_ran(place, trials[place], Ok(())),
        outcome is Err && place == trials.len() - 1 ==> scenario_ran(place, trials[place], outcome),
{
    assert(make_store.ensures((), trials[place].given()));
    assert(trials.len() == 12 || outcome is Err);
    if let Ok(passed) = outcome {
        assert(passed == ());
    }
}

} // verus!
