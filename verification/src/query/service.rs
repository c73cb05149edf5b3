//! Query dispatch to live workflow processes.
//!
//! A query resolves the workflow, delivers one message that carries a reply channel, and waits for
//! the reply up to the configured timeout. Nothing here can write: a query never records an event.

use std::sync::Arc;
use std::time::Duration;

use vstd::prelude::*;
use vstd::string::*;

use crate::error::{EngineSeamError, EngineSeamErrorView};
use crate::ids::{hyphenated, WorkflowId};
use crate::payload::{Payload, PayloadView};
use crate::seam::{
    seam_outcome, EngineHandle, MailboxDelivery, MailboxMessageView, WorkflowMailboxMessage,
    WorkflowProcessHandle, WorkflowResidency,
};
use crate::text::joined;

verus! {

/// Failure of a query.
#[derive(Debug, PartialEq, Eq)]
pub enum QueryError {
    /// The workflow has no handler for the query.
    UnknownQuery(String),
    /// No reply arrived in time.
    Timeout,
    /// The workflow is not running.
    NotRunning(WorkflowId),
    /// The workflow is not known.
    Unknown(WorkflowId),
    /// The reply channel was closed without a reply.
    ReplyDropped,
    /// The engine seam failed.
    Engine(EngineSeamError),
}

/// Mathematical value of a [`QueryError`].
pub enum QueryErrorView {
    /// The workflow has no handler for the query.
    UnknownQuery(Seq<char>),
    /// No reply arrived in time.
    Timeout,
    /// The workflow is not running.
    NotRunning(WorkflowId),
    /// The workflow is not known.
    Unknown(WorkflowId),
    /// The reply channel was closed without a reply.
    ReplyDropped,
    /// The engine seam failed.
    Engine(EngineSeamErrorView),
}

impl View for QueryError {
    type V = QueryErrorView;

    open spec fn view(&self) -> QueryErrorView {
        match self {
            QueryError::UnknownQuery(name) => QueryErrorView::UnknownQuery(name@),
            QueryError::Timeout => QueryErrorView::Timeout,
            QueryError::NotRunning(id) => QueryErrorView::NotRunning(*id),
            QueryError::Unknown(id) => QueryErrorView::Unknown(*id),
            QueryError::ReplyDropped => QueryErrorView::ReplyDropped,
            QueryError::Engine(error) => QueryErrorView::Engine(error@),
        }
    }
}

impl QueryErrorView {
    /// The text under which the failure is reported.
    pub open spec fn text(self) -> Seq<char> {
        match self {
            QueryErrorView::UnknownQuery(name) => "unknown query "@ + name,
            QueryErrorView::Timeout => "query reply timed out"@,
            QueryErrorView::NotRunning(id) => "workflow "@ + hyphenated(id.value)
                + " is not running"@,
            QueryErrorView::Unknown(id) => "workflow "@ + hyphenated(id.value) + " is unknown"@,
            QueryErrorView::ReplyDropped =>
                "query reply channel closed before a handler response was sent"@,
            QueryErrorView::Engine(error) => "query engine seam failed: "@ + error.text(),
        }
    }
}

impl QueryError {
    /// The text under which the failure is reported.
    pub fn to_string(&self) -> (text: String)
        ensures
            text@ == self@.text(),
    {
        match self {
            QueryError::UnknownQuery(name) => joined("unknown query ", name.as_str()),
            QueryError::Timeout => "query reply timed out".to_owned(),
            QueryError::NotRunning(id) => {
                let mut text = joined("workflow ", id.to_string().as_str());
                text.append(" is not running");
                text
            },
            QueryError::Unknown(id) => {
                let mut text = joined("workflow ", id.to_string().as_str());
                text.append(" is unknown");
                text
            },
            QueryError::ReplyDropped =>
                "query reply channel closed before a handler response was sent".to_owned(),
            QueryError::Engine(error) => joined(
                "query engine seam failed: ",
                error.to_string().as_str(),
            ),
        }
    }
}

/// Mathematical value of an answer.
pub open spec fn answer_view(answer: Result<Payload, QueryError>) -> Result<
    PayloadView,
    QueryErrorView,
> {
    match answer {
        Ok(payload) => Ok(payload@),
        Err(error) => Err(error@),
    }
}

/// What came of waiting for a reply.
#[derive(Debug, PartialEq, Eq)]
pub enum QueryReply {
    /// The handler answered.
    Answered(Result<Payload, QueryError>),
    /// The reply channel was closed.
    Dropped,
    /// The timeout elapsed.
    TimedOut,
}

/// The process that a query goes to: only a resident workflow has one.
pub open spec fn query_target(
    workflow_id: WorkflowId,
    residency: Result<WorkflowResidency, EngineSeamErrorView>,
) -> Result<WorkflowProcessHandle, QueryErrorView> {
    match residency {
        Ok(WorkflowResidency::Resident(process)) => Ok(process),
        Ok(WorkflowResidency::NonResident) => Err(QueryErrorView::NotRunning(workflow_id)),
        Ok(WorkflowResidency::Terminal) => Err(QueryErrorView::NotRunning(workflow_id)),
        Ok(WorkflowResidency::Unknown) => Err(QueryErrorView::Unknown(workflow_id)),
        Err(error) => Err(QueryErrorView::Engine(error)),
    }
}

/// Live workflow query dispatcher.
#[derive(Debug)]
pub struct QueryService<H: ?Sized> {
    engine: Arc<H>,
    query_timeout: Duration,
}

impl<H: ?Sized> QueryService<H> {
    /// The engine that is asked.
    pub closed spec fn asked(&self) -> Arc<H> {
        self.engine
    }

    /// The configured timeout.
    pub closed spec fn timeout(&self) -> Duration {
        self.query_timeout
    }
}

impl<H: EngineHandle + ?Sized> QueryService<H> {
    /// A query service with the given timeout.
    pub fn new(engine: Arc<H>, query_timeout: Duration) -> (service: Self)
        ensures
            service.asked() == engine,
            service.timeout() == query_timeout,
    {
        QueryService { engine, query_timeout }
    }

    /// The timeout for query replies.
    pub fn query_timeout(&self) -> (timeout: Duration)
        ensures
            timeout == self.timeout(),
    {
        self.query_timeout
    }

    /// The message that a query delivers, and the process that it goes to.
    pub fn query(&self, workflow_id: &WorkflowId, name: String, args: Payload) -> (delivery: Result<
        MailboxDelivery,
        QueryError,
    >)
        ensures
            match query_target(*workflow_id, self.asked().residency(*workflow_id)) {
                Ok(process) => delivery matches Ok(d) && d.process == process && d.message@ == (
                MailboxMessageView::Query { name: name@, payload: args@ }),
                Err(error) => delivery matches Err(e) && e@ == error,
            },
    {
        let process = match self.engine.resolve_workflow(workflow_id) {
            Ok(WorkflowResidency::Resident(process)) => process,
            Ok(WorkflowResidency::NonResident) => {
                return Err(QueryError::NotRunning(*workflow_id));
            },
            Ok(WorkflowResidency::Terminal) => {
                return Err(QueryError::NotRunning(*workflow_id));
            },
            Ok(WorkflowResidency::Unknown) => {
                return Err(QueryError::Unknown(*workflow_id));
            },
            Err(error) => {
                return Err(QueryError::Engine(error));
            },
        };
        Ok(
            MailboxDelivery {
                process,
                message: WorkflowMailboxMessage::Query { name, payload: args },
            },
        )
    }
}

/// What came of waiting for a reply, as a value.
pub enum QueryReplyView {
    /// The handler answered.
    Answered(Result<PayloadView, QueryErrorView>),
    /// The reply channel was closed.
    Dropped,
    /// The timeout elapsed.
    TimedOut,
}

impl View for QueryReply {
    type V = QueryReplyView;

    open spec fn view(&self) -> QueryReplyView {
        match self {
            QueryReply::Answered(result) => QueryReplyView::Answered(answer_view(*result)),
            QueryReply::Dropped => QueryReplyView::Dropped,
            QueryReply::TimedOut => QueryReplyView::TimedOut,
        }
    }
}

/// The answer to a query: the handler's, where the message was handed over and the handler answered.
pub open spec fn query_answer(
    delivered: Result<(), EngineSeamErrorView>,
    reply: QueryReplyView,
) -> Result<PayloadView, QueryErrorView> {
    match delivered {
        Err(error) => Err(QueryErrorView::Engine(error)),
        Ok(()) => match reply {
            QueryReplyView::Answered(result) => result,
            QueryReplyView::Dropped => Err(QueryErrorView::ReplyDropped),
            QueryReplyView::TimedOut => Err(QueryErrorView::Timeout),
        },
    }
}

/// What a query returns once its message was handed over, or could not be.
pub fn query_outcome(delivered: Result<(), EngineSeamError>, reply: QueryReply) -> (answer: Result<
    Payload,
    QueryError,
>)
    ensures
        answer_view(answer) == query_answer(seam_outcome(delivered), reply@),
{
    match delivered {
        Err(error) => Err(QueryError::Engine(error)),
        Ok(()) => match reply {
            QueryReply::Answered(result) => result,
            QueryReply::Dropped => Err(QueryError::ReplyDropped),
            QueryReply::TimedOut => Err(QueryError::Timeout),
        },
    }
}

/// A query goes to the process of a resident workflow and to no other: a workflow that is not in
/// memory or has ended is not running, one that nobody knows is unknown, and a failure of the
/// engine is passed on.
pub proof fn only_resident_workflows_are_queried(
    workflow_id: WorkflowId,
    residency: Result<WorkflowResidency, EngineSeamErrorView>,
    process: WorkflowProcessHandle,
)
    ensures
        query_target(workflow_id, residency) == Ok::<WorkflowProcessHandle, QueryErrorView>(process)
            <==> residency == Ok::<WorkflowResidency, EngineSeamErrorView>(
            WorkflowResidency::Resident(process),
        ),
        query_target(workflow_id, residency) == Err::<WorkflowProcessHandle, QueryErrorView>(
            QueryErrorView::NotRunning(workflow_id),
        ) <==> (residency matches Ok(found) && (found is NonResident || found is Terminal)),
        query_target(workflow_id, residency) == Err::<WorkflowProcessHandle, QueryErrorView>(
            QueryErrorView::Unknown(workflow_id),
        ) <==> (residency matches Ok(found) && found is Unknown),
        residency matches Err(error) ==> query_target(workflow_id, residency) == Err::<
            WorkflowProcessHandle,
            QueryErrorView,
        >(QueryErrorView::Engine(error)),
{
}

/// A query returns what its handler answered, and only that: a message that could not be handed over, a
/// channel that was closed and a reply that did not come in time each fail the query in their own way.
pub proof fn queries_return_the_handlers_answer(
    delivered: Result<(), EngineSeamErrorView>,
    reply: QueryReplyView,
)
    ensures
        ({
            let answer = query_answer(delivered, reply);
            &&& answer matches Ok(payload) ==> delivered is Ok && reply == QueryReplyView::Answered(
                Ok(payload),
            )
            &&& delivered matches Err(error) ==> answer == Err::<PayloadView, QueryErrorView>(
                QueryErrorView::Engine(error),
            )
            &&& delivered is Ok ==> (reply matches QueryReplyView::Answered(result) ==> answer
                == result)
            &&& delivered is Ok && reply is Dropped ==> answer == Err::<PayloadView, QueryErrorView>(
                QueryErrorView::ReplyDropped,
            )
            &&& delivered is Ok && reply is TimedOut ==> answer == Err::<
                PayloadView,
                QueryErrorView,
            >(QueryErrorView::Timeout)
        }),
{
}

/// The text of a failed query names the query or the workflow that it failed for, or the reason of the
/// engine.
pub proof fn failed_queries_say_what_failed(
    name: Seq<char>,
    id: WorkflowId,
    error: EngineSeamErrorView,
)
    ensures
        QueryErrorView::UnknownQuery(name).text() == "unknown query "@ + name,
        QueryErrorView::NotRunning(id).text() == "workflow "@ + hyphenated(id.value)
            + " is not running"@,
        QueryErrorView::Unknown(id).text() == "workflow "@ + hyphenated(id.value) + " is unknown"@,
        QueryErrorView::Engine(error).text() == "query engine seam failed: "@ + error.text(),
        QueryErrorView::Timeout.text() == "query reply timed out"@,
        QueryErrorView::ReplyDropped.text()
            == "query reply channel closed before a handler response was sent"@,
{
}

} // verus!
