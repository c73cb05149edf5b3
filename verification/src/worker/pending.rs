//! Activities that wait for a worker's result.
//!
//! One entry is kept per dispatched activity. A result is matched to its entry by workflow and
//! activity, and queued for the dispatch that waits under the entry's ticket.

use vstd::prelude::*;
use vstd::string::*;
use vstd::utf8::*;

use crate::ids::{ActivityId, WorkflowId};
use crate::payload::{
    clone_bytes, ActivityErrorKind, ActivityErrorView, ContentType, Payload,
};
use crate::text::joined;
use crate::timestamp::Span;
use crate::worker::dispatch::{
    ActivityCompletion, ActivityCompletionOutcome, ActivityCompletionOutcomeView,
    ActivityCompletionSink, ActivityCompletionView, ServerError, ServerErrorView,
};

verus! {

/// The concurrent map of the `dashmap` crate.
#[verifier::external_type_specification]
#[verifier::external_body]
#[verifier::reject_recursive_types(K)]
#[verifier::reject_recursive_types(V)]
#[verifier::reject_recursive_types(S)]
pub struct ExDashMap<K, V, S>(dashmap::DashMap<K, V, S>);

/// The entries that a map of tickets holds.
pub uninterp spec fn ticket_entries(map: dashmap::DashMap<(u128, u64), u64>) -> Map<
    (u128, u64),
    u64,
>;

/// No entries.
pub open spec fn no_tickets() -> Map<(u128, u64), u64> {
    Map::empty()
}

/// Calls `dashmap::DashMap::new`: the map has no entries.
#[verifier::external_body]
fn new_tickets() -> (map: dashmap::DashMap<(u128, u64), u64>)
    ensures
        ticket_entries(map) == no_tickets(),
{
    dashmap::DashMap::new()
}

/// Calls `dashmap::DashMap::insert`: the value is put under the key, in place of an earlier one.
#[verifier::external_body]
fn insert_ticket(map: &mut dashmap::DashMap<(u128, u64), u64>, key: (u128, u64), ticket: u64)
    ensures
        ticket_entries(*final(map)) == ticket_entries(*old(map)).insert(key, ticket),
{
    map.insert(key, ticket);
}

/// Calls `dashmap::DashMap::remove`: the entry of the key is taken out and its value returned.
#[verifier::external_body]
fn remove_ticket(map: &mut dashmap::DashMap<(u128, u64), u64>, key: (u128, u64)) -> (ticket:
    Option<u64>)
    ensures
        ticket_entries(*final(map)) == ticket_entries(*old(map)).remove(key),
        ticket is Some <==> ticket_entries(*old(map)).contains_key(key),
        ticket matches Some(t) ==> t == ticket_entries(*old(map))[key],
{
    map.remove(&key).map(|entry| entry.1)
}

/// Calls `dashmap::DashMap::len`: the number of entries.
#[verifier::external_body]
fn count_tickets(map: &dashmap::DashMap<(u128, u64), u64>) -> (count: usize)
    ensures
        count == ticket_entries(*map).len(),
{
    map.len()
}

/// Calls `String::from_utf8`: valid UTF-8 becomes the text that it encodes, and nothing else is
/// accepted.
#[verifier::external_body]
fn text_from_utf8(bytes: Vec<u8>) -> (text: Option<String>)
    ensures
        text is Some <==> valid_utf8(bytes@),
        text matches Some(t) ==> t@ == decode_utf8(bytes@),
{
    String::from_utf8(bytes).ok()
}

/// A result for the dispatch that waits under a ticket.
#[derive(Debug, PartialEq, Eq)]
pub struct Delivery {
    /// Ticket of the waiting dispatch.
    pub ticket: u64,
    /// The result.
    pub result: Result<String, String>,
}

/// Texts of a result.
pub open spec fn result_texts(result: Result<String, String>) -> Result<Seq<char>, Seq<char>> {
    match result {
        Ok(text) => Ok(text@),
        Err(text) => Err(text@),
    }
}

/// Ticket and texts of a list of deliveries.
pub open spec fn delivery_texts(deliveries: Seq<Delivery>) -> Seq<
    (u64, Result<Seq<char>, Seq<char>>),
> {
    deliveries.map_values(
        |delivery: Delivery| (delivery.ticket, result_texts(delivery.result)),
    )
}

/// Mathematical value of [`PendingActivities`].
#[verifier::ext_equal]
pub struct PendingView {
    /// Ticket of every waiting activity, by workflow and activity.
    pub entries: Map<(u128, u64), u64>,
    /// Ticket of the next entry.
    pub next_ticket: u64,
    /// Results that were matched and not yet taken.
    pub deliveries: Seq<(u64, Result<Seq<char>, Seq<char>>)>,
}

/// The key of an activity.
pub open spec fn pending_key(workflow_id: WorkflowId, activity_id: ActivityId) -> (u128, u64) {
    (workflow_id.value, activity_id.position)
}

/// Activities that wait for a worker's result.
pub struct PendingActivities {
    pending: dashmap::DashMap<(u128, u64), u64>,
    next_ticket: u64,
    deliveries: Vec<Delivery>,
}

impl View for PendingActivities {
    type V = PendingView;

    closed spec fn view(&self) -> PendingView {
        PendingView {
            entries: ticket_entries(self.pending),
            next_ticket: self.next_ticket,
            deliveries: delivery_texts(self.deliveries@),
        }
    }
}

/// What a result does to the waiting activities: it is queued for the entry of its key and the
/// entry is gone; without an entry nothing changes.
pub open spec fn completed(
    pending: PendingView,
    key: (u128, u64),
    result: Result<Seq<char>, Seq<char>>,
) -> PendingView {
    if pending.entries.contains_key(key) {
        PendingView {
            entries: pending.entries.remove(key),
            next_ticket: pending.next_ticket,
            deliveries: pending.deliveries.push((pending.entries[key], result)),
        }
    } else {
        pending
    }
}

/// The result that a worker's report stands for: the text of a payload, or a failure marked as
/// retryable or terminal. A payload that is no text is refused.
pub open spec fn reported_result(outcome: ActivityCompletionOutcomeView) -> Result<
    Result<Seq<char>, Seq<char>>,
    ServerErrorView,
> {
    match outcome {
        ActivityCompletionOutcomeView::Succeeded(payload) => if valid_utf8(payload.bytes) {
            Ok(Ok(decode_utf8(payload.bytes)))
        } else {
            Err(
                ServerErrorView::WorkerDispatch {
                    namespace: ""@,
                    activity_type: ""@,
                    reason: "payload decode: "@
                        + "activity result payload is not valid UTF-8"@,
                },
            )
        },
        ActivityCompletionOutcomeView::Failed(error) => Ok(
            Err(
                if error.kind == ActivityErrorKind::Retryable {
                    "retryable:"@ + error.message
                } else {
                    "terminal:"@ + error.message
                },
            ),
        ),
    }
}

fn payload_to_string(payload: &Payload) -> (text: Result<String, String>)
    ensures
        text is Ok <==> valid_utf8(payload@.bytes),
        text matches Ok(t) ==> t@ == decode_utf8(payload@.bytes),
        text matches Err(reason) ==> reason@ == "activity result payload is not valid UTF-8"@,
{
    match payload.content_type() {
        ContentType::Json => match text_from_utf8(clone_bytes(payload.bytes())) {
            Some(text) => Ok(text),
            None => Err("activity result payload is not valid UTF-8".to_owned()),
        },
    }
}

impl PendingActivities {
    /// No waiting activities.
    pub fn new() -> (pending: Self)
        ensures
            pending@ == (PendingView {
                entries: Map::empty(),
                next_ticket: 0,
                deliveries: Seq::empty(),
            }),
    {
        let pending = PendingActivities {
            pending: new_tickets(),
            next_ticket: 0,
            deliveries: Vec::new(),
        };
        assert(pending@.deliveries =~= Seq::empty());
        pending
    }

    /// Registers an activity and returns the ticket under which its dispatch waits. An earlier
    /// entry of the same activity is given up.
    pub fn insert(&mut self, workflow_id: WorkflowId, activity_id: ActivityId) -> (ticket: u64)
        ensures
            ticket == old(self)@.next_ticket,
            final(self)@ == (PendingView {
                entries: old(self)@.entries.insert(pending_key(workflow_id, activity_id), ticket),
                next_ticket: if ticket < u64::MAX {
                    (ticket + 1) as u64
                } else {
                    0
                },
                deliveries: old(self)@.deliveries,
            }),
    {
        let ticket = self.next_ticket;
        self.next_ticket = if ticket < u64::MAX {
            ticket + 1
        } else {
            0
        };
        insert_ticket(&mut self.pending, (workflow_id.value, activity_id.position), ticket);
        ticket
    }

    /// Drops the entry of an activity that will not be completed through this tracker.
    pub fn remove(&mut self, workflow_id: &WorkflowId, activity_id: &ActivityId)
        ensures
            final(self)@ == (PendingView {
                entries: old(self)@.entries.remove(pending_key(*workflow_id, *activity_id)),
                ..old(self)@
            }),
    {
        let _ = remove_ticket(&mut self.pending, (workflow_id.value, activity_id.position));
    }

    /// Matches a result to its entry; returns whether there was one.
    pub fn complete(
        &mut self,
        key: &(WorkflowId, ActivityId),
        result: Result<String, String>,
    ) -> (matched: bool)
        ensures
            matched == old(self)@.entries.contains_key(pending_key(key.0, key.1)),
            final(self)@ == completed(
                old(self)@,
                pending_key(key.0, key.1),
                result_texts(result),
            ),
    {
        let ghost before = self@;
        match remove_ticket(&mut self.pending, (key.0.value, key.1.position)) {
            Some(ticket) => {
                let ghost texts = result_texts(result);
                let ghost earlier = self.deliveries@;
                self.deliveries.push(Delivery { ticket, result });
                proof {
                    assert(delivery_texts(self.deliveries@) =~= delivery_texts(earlier).push(
                        (ticket, texts),
                    ));
                }
                true
            },
            None => {
                proof {
                    assert(before.entries.remove(pending_key(key.0, key.1)) =~= before.entries);
                }
                false
            },
        }
    }

    /// Takes the results that were matched since the last call, in order.
    pub fn take_deliveries(&mut self) -> (deliveries: Vec<Delivery>)
        ensures
            delivery_texts(deliveries@) == old(self)@.deliveries,
            final(self)@ == (PendingView { deliveries: Seq::empty(), ..old(self)@ }),
    {
        let mut deliveries: Vec<Delivery> = Vec::new();
        core::mem::swap(&mut deliveries, &mut self.deliveries);
        assert(self@.deliveries =~= Seq::empty());
        deliveries
    }

    /// Number of waiting activities.
    pub fn len(&self) -> (len: usize)
        ensures
            len == self@.entries.len(),
    {
        count_tickets(&self.pending)
    }
}

impl Default for PendingActivities {
    fn default() -> (pending: Self)
        ensures
            pending@ == (PendingView {
                entries: Map::empty(),
                next_ticket: 0,
                deliveries: Seq::empty(),
            }),
    {
        PendingActivities::new()
    }
}

impl ActivityCompletionSink for PendingActivities {
    open spec fn accepts(
        &self,
        after: &Self,
        completion: ActivityCompletionView,
        outcome: Result<(), ServerError>,
    ) -> bool {
        match reported_result(completion.outcome) {
            Ok(result) => {
                &&& outcome is Ok
                &&& after@ == completed(
                    self@,
                    pending_key(completion.workflow_id, completion.activity_id),
                    result,
                )
            },
            Err(error) => {
                &&& outcome matches Err(e) && e@ == error
                &&& after@ == self@
            },
        }
    }

    fn complete_activity(&mut self, completion: ActivityCompletion) -> (outcome: Result<
        (),
        ServerError,
    >) {
        let result = match completion.outcome {
            ActivityCompletionOutcome::Succeeded(payload) => match payload_to_string(&payload) {
                Ok(text) => Ok(text),
                Err(reason) => {
                    return Err(
                        ServerError::WorkerDispatch {
                            namespace: "".to_owned(),
                            activity_type: "".to_owned(),
                            reason: joined("payload decode: ", reason.as_str()),
                        },
                    );
                },
            },
            ActivityCompletionOutcome::Failed(error) => {
                if error.is_retryable() {
                    Err(joined("retryable:", error.message.as_str()))
                } else {
                    Err(joined("terminal:", error.message.as_str()))
                }
            },
        };
        let _ = self.complete(&(completion.workflow_id, completion.activity_id), result);
        Ok(())
    }
}

/// A result only ever completes the entry of its own workflow and activity: every other entry
/// keeps its ticket, and nothing is queued for it.
pub proof fn stale_results_complete_nothing_else(
    pending: PendingView,
    key: (u128, u64),
    other: (u128, u64),
    result: Result<Seq<char>, Seq<char>>,
)
    requires
        other != key,
    ensures
        completed(pending, key, result).entries.contains_key(other)
            == pending.entries.contains_key(other),
        pending.entries.contains_key(other) ==> completed(pending, key, result).entries[other]
            == pending.entries[other],
        !pending.entries.contains_key(key) ==> completed(pending, key, result) == pending,
{
}

/// A second result for the same activity finds no entry.
pub proof fn results_complete_once(
    pending: PendingView,
    key: (u128, u64),
    first: Result<Seq<char>, Seq<char>>,
    second: Result<Seq<char>, Seq<char>>,
)
    ensures
        completed(completed(pending, key, first), key, second) == completed(pending, key, first),
{
}

/// Whole milliseconds of a span, at most `u64::MAX`.
pub fn duration_ms(duration: Span) -> (millis: u64)
    ensures
        millis == duration.whole_millis(),
{
    duration.as_millis_saturating()
}

/// What a waiting dispatch learns of a failure: its classification stands before its message, so that
/// a failure that must not be tried again is told from one that may, and the message is kept as it is.
pub proof fn failures_are_marked_by_their_classification(error: ActivityErrorView)
    ensures
        reported_result(ActivityCompletionOutcomeView::Failed(error)) matches Ok(Err(text)) && text
            == (match error.kind {
            ActivityErrorKind::Retryable => "retryable:"@,
            ActivityErrorKind::Terminal => "terminal:"@,
        }) + error.message,
{
}

/// Failures of different classification are never reported alike, whatever their messages.
pub proof fn classifications_are_told_apart(one: ActivityErrorView, other: ActivityErrorView)
    requires
        one.kind != other.kind,
    ensures
        reported_result(ActivityCompletionOutcomeView::Failed(one)) != reported_result(
            ActivityCompletionOutcomeView::Failed(other),
        ),
{
    reveal_strlit("retryable:");
    reveal_strlit("terminal:");
    failures_are_marked_by_their_classification(one);
    failures_are_marked_by_their_classification(other);
    let a = reported_result(ActivityCompletionOutcomeView::Failed(one))->Ok_0->Err_0;
    let b = reported_result(ActivityCompletionOutcomeView::Failed(other))->Ok_0->Err_0;
    assert(a[0] == 'r' || a[0] == 't');
    assert(b[0] == 'r' || b[0] == 't');
    assert(a[0] != b[0]);
}

/// What a waiting dispatch learns of a result: the text of its payload, where it is one, and never a
/// success of a failure.
pub proof fn results_are_reported_as_their_text(outcome: ActivityCompletionOutcomeView)
    ensures
        reported_result(outcome) matches Ok(Ok(text)) ==> (
        outcome matches ActivityCompletionOutcomeView::Succeeded(payload) && encode_utf8(text)
            == payload.bytes),
        reported_result(outcome) is Err ==> outcome is Succeeded,
        outcome matches ActivityCompletionOutcomeView::Succeeded(payload) ==> (reported_result(
            outcome,
        ) is Ok <==> valid_utf8(payload.bytes)) && (valid_utf8(payload.bytes) ==> reported_result(
            outcome,
        )->Ok_0 is Ok),
{
    if let ActivityCompletionOutcomeView::Succeeded(payload) = outcome {
        if valid_utf8(payload.bytes) {
            decode_utf8_encode_utf8(payload.bytes);
        }
    }
}

/// A result that a worker reports reaches the dispatch that waits for its activity, and no other: it is
/// queued last, under the ticket of that dispatch, whose entry is gone.
pub proof fn results_reach_their_dispatch(
    pending: PendingView,
    workflow_id: WorkflowId,
    activity_id: ActivityId,
    result: Result<Seq<char>, Seq<char>>,
)
    requires
        pending.entries.contains_key((workflow_id.value, activity_id.position)),
    ensures
        ({
            let key = pending_key(workflow_id, activity_id);
            let after = completed(pending, key, result);
            &&& after.deliveries.len() == pending.deliveries.len() + 1
            &&& after.deliveries.drop_last() == pending.deliveries
            &&& after.deliveries.last() == (
                pending.entries[(workflow_id.value, activity_id.position)],
                result,
            )
            &&& !after.entries.contains_key((workflow_id.value, activity_id.position))
            &&& after.next_ticket == pending.next_ticket
        }),
{
    let key = pending_key(workflow_id, activity_id);
    assert(completed(pending, key, result).deliveries.drop_last() =~= pending.deliveries);
}

/// A report that can be read is taken: the dispatch that waits for its activity is handed the result under
/// its ticket and waits no more, and a report that nobody waits for changes nothing. Only a result that is
/// no text is refused, and then nothing changes either.
pub proof fn taken_reports_reach_the_waiting_dispatch(
    before: PendingActivities,
    after: PendingActivities,
    completion: ActivityCompletionView,
    outcome: Result<(), ServerError>,
)
    requires
        before.accepts(&after, completion, outcome),
    ensures
        ({
            let key = (completion.workflow_id.value, completion.activity_id.position);
            let waited = before@.entries.contains_key(key);
            let readable = match completion.outcome {
                ActivityCompletionOutcomeView::Succeeded(payload) => valid_utf8(payload.bytes),
                ActivityCompletionOutcomeView::Failed(_) => true,
            };
            &&& outcome is Ok <==> readable
            &&& !readable || !waited ==> after@ == before@
            &&& readable && waited ==> {
                &&& !after@.entries.contains_key(key)
                &&& after@.deliveries.len() == before@.deliveries.len() + 1
                &&& after@.deliveries.last().0 == before@.entries[key]
                &&& completion.outcome is Succeeded <==> after@.deliveries.last().1 is Ok
                &&& completion.outcome matches ActivityCompletionOutcomeView::Succeeded(payload)
                    ==> after@.deliveries.last().1 == Ok::<Seq<char>, Seq<char>>(
                    decode_utf8(payload.bytes),
                )
            }
        }),
{
}

} // verus!
