//! Results reported by workers: decoding and handoff.

use vstd::prelude::*;
use vstd::string::*;

use crate::ids::{hyphenated, ActivityId, WorkflowId};
use crate::payload::{
    ActivityError, ActivityErrorKind, ActivityErrorView, ContentType, Payload, PayloadView,
};
use crate::text::{decimal, decimal_text, joined, same_text};
use crate::worker::registry::WorkerId;

verus! {

/// The identifier that `uuid::Uuid::parse_str` reads from a text, if it reads one.
pub uninterp spec fn parsed_uuid(text: Seq<char>) -> Option<u128>;

/// Calls `uuid::Uuid::parse_str`: the outcome depends on the text alone, and the hyphenated form of
/// an identifier reads back as the identifier.
#[verifier::external_body]
fn parse_uuid(text: &str) -> (value: Option<u128>)
    ensures
        value == parsed_uuid(text@),
        forall|id: u128| text@ == #[trigger] hyphenated(id) ==> value == Some(id),
{
    uuid::Uuid::parse_str(text).ok().map(|parsed| parsed.as_u128())
}

/// Failure of the worker endpoint.
#[derive(Debug, PartialEq, Eq)]
pub enum ServerError {
    /// A message on the wire is malformed.
    Wire {
        /// What is wrong with it.
        message: String,
    },
    /// An activity could not be dispatched or its result not be used.
    WorkerDispatch {
        /// Namespace of the activity.
        namespace: String,
        /// Type of the activity.
        activity_type: String,
        /// What went wrong.
        reason: String,
    },
}

/// Mathematical value of a [`ServerError`].
pub enum ServerErrorView {
    /// A message on the wire is malformed.
    Wire {
        /// What is wrong with it.
        message: Seq<char>,
    },
    /// An activity could not be dispatched or its result not be used.
    WorkerDispatch {
        /// Namespace of the activity.
        namespace: Seq<char>,
        /// Type of the activity.
        activity_type: Seq<char>,
        /// What went wrong.
        reason: Seq<char>,
    },
}

impl View for ServerError {
    type V = ServerErrorView;

    open spec fn view(&self) -> ServerErrorView {
        match self {
            ServerError::Wire { message } => ServerErrorView::Wire { message: message@ },
            ServerError::WorkerDispatch {
                namespace,
                activity_type,
                reason,
            } => ServerErrorView::WorkerDispatch {
                namespace: namespace@,
                activity_type: activity_type@,
                reason: reason@,
            },
        }
    }
}

/// Payload on the wire.
#[derive(Debug, PartialEq, Eq)]
pub struct WirePayload {
    /// Media type of the bytes.
    pub content_type: String,
    /// The encoded data.
    pub bytes: Vec<u8>,
}

/// Failure on the wire.
#[derive(Debug, PartialEq, Eq)]
pub struct WireActivityError {
    /// Retry classification, if a known one was sent.
    pub kind: Option<ActivityErrorKind>,
    /// Human-readable cause.
    pub message: String,
    /// Structured details.
    pub details: Option<WirePayload>,
}

/// Outcome on the wire.
#[derive(Debug, PartialEq, Eq)]
pub enum WireOutcome {
    /// The activity returned a payload.
    Result(WirePayload),
    /// The activity failed.
    Error(WireActivityError),
}

/// Report of a worker as it came over the wire.
#[derive(Debug, PartialEq, Eq)]
pub struct ActivityResult {
    /// Text of the workflow identifier.
    pub workflow_id: Option<String>,
    /// Activity ordinal.
    pub activity_id: Option<u64>,
    /// What the activity came to.
    pub outcome: Option<WireOutcome>,
}

/// Decoded activity outcome reported by a worker.
#[derive(Debug, PartialEq, Eq)]
pub enum ActivityCompletionOutcome {
    /// The activity completed with an output payload.
    Succeeded(Payload),
    /// The activity failed; the retry classification is kept.
    Failed(ActivityError),
}

/// Mathematical value of an [`ActivityCompletionOutcome`].
pub enum ActivityCompletionOutcomeView {
    /// The activity completed with an output payload.
    Succeeded(PayloadView),
    /// The activity failed.
    Failed(ActivityErrorView),
}

impl View for ActivityCompletionOutcome {
    type V = ActivityCompletionOutcomeView;

    open spec fn view(&self) -> ActivityCompletionOutcomeView {
        match self {
            ActivityCompletionOutcome::Succeeded(
                payload,
            ) => ActivityCompletionOutcomeView::Succeeded(payload@),
            ActivityCompletionOutcome::Failed(error) => ActivityCompletionOutcomeView::Failed(
                error@,
            ),
        }
    }
}

/// Completion handed to the engine-owned activity contract.
#[derive(Debug, PartialEq, Eq)]
pub struct ActivityCompletion {
    /// Owning workflow.
    pub workflow_id: WorkflowId,
    /// The activity.
    pub activity_id: ActivityId,
    /// What the worker reported.
    pub outcome: ActivityCompletionOutcome,
}

/// Mathematical value of an [`ActivityCompletion`].
pub struct ActivityCompletionView {
    /// Owning workflow.
    pub workflow_id: WorkflowId,
    /// The activity.
    pub activity_id: ActivityId,
    /// What the worker reported.
    pub outcome: ActivityCompletionOutcomeView,
}

impl View for ActivityCompletion {
    type V = ActivityCompletionView;

    open spec fn view(&self) -> ActivityCompletionView {
        ActivityCompletionView {
            workflow_id: self.workflow_id,
            activity_id: self.activity_id,
            outcome: self.outcome@,
        }
    }
}

/// A refusal of a malformed message.
pub open spec fn wire_refusal(message: Seq<char>) -> ServerErrorView {
    ServerErrorView::Wire { message }
}

fn wire_error(message: &str) -> (error: ServerError)
    ensures
        error@ == wire_refusal(message@),
{
    ServerError::Wire { message: message.to_owned() }
}

/// A payload from the wire: its media type must be known.
pub open spec fn decoded_payload(payload: WirePayload) -> Result<PayloadView, ServerErrorView> {
    if payload.content_type@ == "application/json"@ {
        Ok(PayloadView { content_type: ContentType::Json, bytes: payload.bytes@ })
    } else {
        Err(wire_refusal("unsupported payload content type: "@ + payload.content_type@))
    }
}

fn decode_payload(payload: WirePayload) -> (decoded: Result<Payload, ServerError>)
    ensures
        match decoded_payload(payload) {
            Ok(view) => decoded matches Ok(p) && p@ == view,
            Err(error) => decoded matches Err(e) && e@ == error,
        },
{
    if same_text(payload.content_type.as_str(), "application/json") {
        Ok(Payload::new(ContentType::Json, payload.bytes))
    } else {
        Err(
            wire_error(
                joined(
                    "unsupported payload content type: ",
                    payload.content_type.as_str(),
                ).as_str(),
            ),
        )
    }
}

/// The details of a failure from the wire.
pub open spec fn decoded_details(details: Option<WirePayload>) -> Result<
    Option<PayloadView>,
    ServerErrorView,
> {
    match details {
        None => Ok(None),
        Some(payload) => match decoded_payload(payload) {
            Ok(view) => Ok(Some(view)),
            Err(error) => Err(error),
        },
    }
}

/// A failure from the wire: its classification must be known.
pub open spec fn decoded_error(error: WireActivityError) -> Result<
    ActivityErrorView,
    ServerErrorView,
> {
    match error.kind {
        None => Err(wire_refusal("activity error kind is missing"@)),
        Some(kind) => match decoded_details(error.details) {
            Ok(details) => Ok(ActivityErrorView { kind, message: error.message@, details }),
            Err(refusal) => Err(refusal),
        },
    }
}

fn decode_error(error: WireActivityError) -> (decoded: Result<ActivityError, ServerError>)
    ensures
        match decoded_error(error) {
            Ok(view) => decoded matches Ok(e) && e@ == view,
            Err(refusal) => decoded matches Err(e) && e@ == refusal,
        },
{
    let kind = match error.kind {
        Some(kind) => kind,
        None => {
            return Err(wire_error("activity error kind is missing"));
        },
    };
    let details = match error.details {
        Some(payload) => match decode_payload(payload) {
            Ok(payload) => Some(payload),
            Err(refusal) => {
                return Err(refusal);
            },
        },
        None => None,
    };
    Ok(ActivityError { kind, message: error.message, details })
}

/// The completion that a report stands for. The workflow, the activity and the outcome are looked
/// at in this order, and the first that is missing or malformed is refused.
pub open spec fn decoded_completion(report: ActivityResult) -> Result<
    ActivityCompletionView,
    ServerErrorView,
> {
    match report.workflow_id {
        None => Err(wire_refusal("activity result workflow id is missing"@)),
        Some(text) => match parsed_uuid(text@) {
            None => Err(wire_refusal("activity result workflow id is invalid: "@ + text@)),
            Some(value) => match report.activity_id {
                None => Err(wire_refusal("activity result activity id is missing"@)),
                Some(position) => {
                    let outcome = match report.outcome {
                        None => Err(wire_refusal("activity result outcome is missing"@)),
                        Some(WireOutcome::Result(payload)) => match decoded_payload(payload) {
                            Ok(view) => Ok(ActivityCompletionOutcomeView::Succeeded(view)),
                            Err(error) => Err(error),
                        },
                        Some(WireOutcome::Error(error)) => match decoded_error(error) {
                            Ok(view) => Ok(ActivityCompletionOutcomeView::Failed(view)),
                            Err(refusal) => Err(refusal),
                        },
                    };
                    match outcome {
                        Ok(outcome) => Ok(
                            ActivityCompletionView {
                                workflow_id: WorkflowId { value },
                                activity_id: ActivityId { position },
                                outcome,
                            },
                        ),
                        Err(refusal) => Err(refusal),
                    }
                },
            },
        },
    }
}

impl ActivityCompletion {
    /// Decodes a report.
    pub fn try_from(report: ActivityResult) -> (completion: Result<Self, ServerError>)
        ensures
            match decoded_completion(report) {
                Ok(view) => completion matches Ok(c) && c@ == view,
                Err(error) => completion matches Err(e) && e@ == error,
            },
    {
        let workflow_id = match report.workflow_id {
            None => {
                return Err(wire_error("activity result workflow id is missing"));
            },
            Some(text) => match parse_uuid(text.as_str()) {
                Some(value) => WorkflowId::new(value),
                None => {
                    return Err(
                        wire_error(
                            joined(
                                "activity result workflow id is invalid: ",
                                text.as_str(),
                            ).as_str(),
                        ),
                    );
                },
            },
        };
        let activity_id = match report.activity_id {
            Some(position) => ActivityId::from_sequence_position(position),
            None => {
                return Err(wire_error("activity result activity id is missing"));
            },
        };
        let outcome = match report.outcome {
            Some(WireOutcome::Result(payload)) => match decode_payload(payload) {
                Ok(payload) => ActivityCompletionOutcome::Succeeded(payload),
                Err(error) => {
                    return Err(error);
                },
            },
            Some(WireOutcome::Error(error)) => match decode_error(error) {
                Ok(error) => ActivityCompletionOutcome::Failed(error),
                Err(refusal) => {
                    return Err(refusal);
                },
            },
            None => {
                return Err(wire_error("activity result outcome is missing"));
            },
        };
        Ok(ActivityCompletion { workflow_id, activity_id, outcome })
    }
}

/// Engine-owned activity completion contract used by the worker endpoint.
pub trait ActivityCompletionSink {
    /// `completion` turned the sink into `after`, with the given outcome.
    open spec fn accepts(
        &self,
        after: &Self,
        completion: ActivityCompletionView,
        outcome: Result<(), ServerError>,
    ) -> bool {
        true
    }

    /// Takes one result that a worker reported.
    fn complete_activity(&mut self, completion: ActivityCompletion) -> (outcome: Result<
        (),
        ServerError,
    >)
        ensures
            old(self).accepts(final(self), completion@, outcome),
    ;
}

/// Decodes a report and hands it to the sink; a malformed report does not reach the sink.
pub fn handle_activity_result<S: ActivityCompletionSink>(sink: &mut S, report: ActivityResult) -> (
outcome: Result<(), ServerError>)
    ensures
        match decoded_completion(report) {
            Ok(completion) => old(sink).accepts(final(sink), completion, outcome),
            Err(error) => outcome matches Err(e) && e@ == error && *final(sink) == *old(sink),
        },
{
    match ActivityCompletion::try_from(report) {
        Ok(completion) => sink.complete_activity(completion),
        Err(error) => Err(error),
    }
}

/// The cause reported for an activity whose worker was lost.
pub open spec fn lost_worker_message(worker_id: WorkerId) -> Seq<char> {
    "worker WorkerId("@ + decimal(worker_id.0 as nat)
        + ") lost before reporting activity result"@
}

/// The retryable failure reported when a worker loses an activity that it was given.
pub fn lost_worker_error(worker_id: WorkerId) -> (error: ActivityError)
    ensures
        error@ == (ActivityErrorView {
            kind: ActivityErrorKind::Retryable,
            message: lost_worker_message(worker_id),
            details: None,
        }),
{
    let mut message = joined("worker WorkerId(", decimal_text(worker_id.0 as u128).as_str());
    message.append(") lost before reporting activity result");
    ActivityError { kind: ActivityErrorKind::Retryable, message, details: None }
}

/// An accepted failure is the one that the worker put on the wire: its completion is a failure of the
/// same classification, with the same message, and with details exactly where details were sent, of the
/// same bytes.
pub proof fn accepted_failures_keep_their_classification(
    report: ActivityResult,
    error: WireActivityError,
)
    requires
        report.outcome == Some(WireOutcome::Error(error)),
        decoded_completion(report) is Ok,
    ensures
        decoded_completion(report)->Ok_0.outcome matches ActivityCompletionOutcomeView::Failed(
            decoded,
        ) && error.kind == Some(decoded.kind) && decoded.message == error.message@ && (
        decoded.details is Some <==> error.details is Some) && (error.details matches Some(sent)
            ==> decoded.details->Some_0.bytes == sent.bytes@),
{
}

/// An accepted result is the one that the worker put on the wire: its completion is a success with the
/// same bytes, and only payloads of the known media type are accepted.
pub proof fn accepted_results_keep_their_payload(report: ActivityResult, payload: WirePayload)
    requires
        report.outcome == Some(WireOutcome::Result(payload)),
        decoded_completion(report) is Ok,
    ensures
        decoded_completion(report)->Ok_0.outcome matches ActivityCompletionOutcomeView::Succeeded(
            decoded,
        ) && decoded.bytes == payload.bytes@ && decoded.content_type == ContentType::Json,
        payload.content_type@ == "application/json"@,
{
}

/// An accepted report completes the activity that it names, of the workflow that it names.
pub proof fn accepted_reports_complete_what_they_name(report: ActivityResult)
    requires
        decoded_completion(report) is Ok,
    ensures
        ({
            let completion = decoded_completion(report)->Ok_0;
            &&& report.activity_id == Some(completion.activity_id.position)
            &&& report.workflow_id matches Some(text) && parsed_uuid(text@) == Some(
                completion.workflow_id.value,
            )
            &&& report.outcome is Some
        }),
{
}

/// A report is accepted where every part of it is there and well-formed: the workflow reads as an
/// identifier, the activity and the outcome are named, a payload has the known media type, and a failure
/// has a classification. Anything else is refused as malformed.
pub proof fn complete_reports_are_accepted(report: ActivityResult)
    ensures
        decoded_completion(report) is Ok <==> {
            &&& report.workflow_id matches Some(text) && parsed_uuid(text@) is Some
            &&& report.activity_id is Some
            &&& match report.outcome {
                Some(WireOutcome::Result(payload)) => payload.content_type@
                    == "application/json"@,
                Some(WireOutcome::Error(error)) => error.kind is Some && (
                error.details matches Some(details) ==> details.content_type@
                    == "application/json"@),
                None => false,
            }
        },
        decoded_completion(report) matches Err(error) ==> error is Wire,
{
}

} // verus!
