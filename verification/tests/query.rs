use std::cell::RefCell;
use std::collections::HashMap;
use std::error::Error;
use std::sync::Arc;
use std::time::Duration;

use aion::error::EngineSeamError;
use aion::event::Event;
use aion::ids::{TimerId, WorkflowId};
use aion::memory::InMemoryStore;
use aion::payload::{ContentType, Payload};
use aion::query::service::{query_outcome, QueryError, QueryReply, QueryService};
use aion::seam::{
    EngineHandle, MailboxDelivery, TimerWheelEntry, WorkflowMailboxMessage, WorkflowProcessHandle,
    WorkflowResidency,
};
use aion::store::EventStore;

const QUERY_TIMEOUT: Duration = Duration::from_millis(10);

#[derive(Clone)]
enum QueryBehavior {
    Reply(Payload),
    HoldSender,
}

#[derive(Default)]
struct FakeQueryWorkflow {
    handlers: HashMap<String, QueryBehavior>,
    query_count: usize,
    last_payload: Option<Payload>,
}

#[derive(Default)]
struct FakeQueryEngine {
    residency: RefCell<HashMap<WorkflowId, WorkflowResidency>>,
    workflows: RefCell<HashMap<u64, FakeQueryWorkflow>>,
}

impl FakeQueryEngine {
    fn set_resident_workflow(
        &self,
        workflow_id: WorkflowId,
        process: WorkflowProcessHandle,
        workflow: FakeQueryWorkflow,
    ) {
        self.residency
            .borrow_mut()
            .insert(workflow_id, WorkflowResidency::Resident(process));
        self.workflows.borrow_mut().insert(process.pid(), workflow);
    }

    fn set_residency(&self, workflow_id: WorkflowId, residency: WorkflowResidency) {
        self.residency.borrow_mut().insert(workflow_id, residency);
    }

    fn query_count(&self, process: WorkflowProcessHandle) -> usize {
        self.workflows
            .borrow()
            .get(&process.pid())
            .map_or(0, |workflow| workflow.query_count)
    }

    fn last_payload(&self, process: WorkflowProcessHandle) -> Option<Payload> {
        self.workflows
            .borrow()
            .get(&process.pid())
            .and_then(|workflow| workflow.last_payload.clone())
    }

    /// Hands a message to its process and says how the process replied.
    fn deliver(&self, delivery: MailboxDelivery) -> (Result<(), EngineSeamError>, QueryReply) {
        match delivery.message {
            WorkflowMailboxMessage::Query { name, payload } => {
                let mut workflows = self.workflows.borrow_mut();
                let Some(workflow) = workflows.get_mut(&delivery.process.pid()) else {
                    return (
                        Err(EngineSeamError::Delivery {
                            reason: "query target process was not registered".to_owned(),
                        }),
                        QueryReply::Dropped,
                    );
                };
                workflow.last_payload = Some(payload);
                workflow.query_count += 1;
                let reply = match workflow.handlers.get(&name) {
                    Some(QueryBehavior::Reply(payload)) => {
                        QueryReply::Answered(Ok(payload.clone()))
                    }
                    Some(QueryBehavior::HoldSender) => QueryReply::TimedOut,
                    None => QueryReply::Answered(Err(QueryError::UnknownQuery(name))),
                };
                (Ok(()), reply)
            }
            _ => (
                Err(EngineSeamError::Delivery {
                    reason: "fake query engine only accepts query messages".to_owned(),
                }),
                QueryReply::Dropped,
            ),
        }
    }
}

impl EngineHandle for FakeQueryEngine {
    fn resolve_workflow(
        &self,
        workflow_id: &WorkflowId,
    ) -> Result<WorkflowResidency, EngineSeamError> {
        Ok(self
            .residency
            .borrow()
            .get(workflow_id)
            .copied()
            .unwrap_or(WorkflowResidency::Unknown))
    }

    fn spawn_child_workflow(&self, workflow_type: &str) -> Result<u64, EngineSeamError> {
        Err(EngineSeamError::ChildSpawn {
            reason: format!("fake query engine does not spawn child workflow {workflow_type}"),
        })
    }

    fn terminate_linked_child_workflow(
        &self,
        _parent_workflow_id: &WorkflowId,
        child_process: WorkflowProcessHandle,
        correlation: u64,
    ) -> Result<(), EngineSeamError> {
        Err(EngineSeamError::ChildTermination {
            reason: format!(
                "fake query engine does not terminate child workflow process {} with correlation {correlation}",
                child_process.pid()
            ),
        })
    }

    fn terminate_linked_activity(
        &self,
        _parent_workflow_id: &WorkflowId,
        activity_process: u64,
        correlation: u64,
    ) -> Result<(), EngineSeamError> {
        Err(EngineSeamError::ChildTermination {
            reason: format!(
                "fake query engine does not terminate activity process {activity_process} with correlation {correlation}"
            ),
        })
    }

    fn arm_timer(&self, entry: TimerWheelEntry) -> Result<(), EngineSeamError> {
        Err(EngineSeamError::TimerWheel {
            reason: format!(
                "fake query engine does not arm timer {}",
                entry.timer_id.to_string()
            ),
        })
    }

    fn disarm_timer(
        &self,
        process: WorkflowProcessHandle,
        timer_id: &TimerId,
    ) -> Result<(), EngineSeamError> {
        Err(EngineSeamError::TimerWheel {
            reason: format!(
                "fake query engine does not disarm timer {} for process {}",
                timer_id.to_string(),
                process.pid()
            ),
        })
    }

    fn record_workflow_event(
        &mut self,
        workflow_id: &WorkflowId,
        event: Event,
    ) -> Result<(), EngineSeamError> {
        Err(EngineSeamError::Recorder {
            reason: format!(
                "queries must not record event {} for workflow {}",
                event.seq(),
                workflow_id.to_string()
            ),
        })
    }
}

fn ask(
    service: &QueryService<FakeQueryEngine>,
    engine: &FakeQueryEngine,
    workflow_id: &WorkflowId,
    name: &str,
    args: Payload,
) -> Result<Payload, QueryError> {
    let delivery = service.query(workflow_id, name.to_owned(), args)?;
    let (delivered, reply) = engine.deliver(delivery);
    query_outcome(delivered, reply)
}

fn fresh_workflow() -> WorkflowId {
    WorkflowId::new(uuid::Uuid::new_v4().as_u128())
}

fn payload(label: &str) -> Payload {
    Payload::new(
        ContentType::Json,
        format!("{{\"label\":\"{label}\"}}").into_bytes(),
    )
}

fn known_workflow(reply: Payload) -> FakeQueryWorkflow {
    let mut handlers = HashMap::new();
    handlers.insert("state".to_owned(), QueryBehavior::Reply(reply));
    FakeQueryWorkflow {
        handlers,
        query_count: 0,
        last_payload: None,
    }
}

#[test]
fn query_returns_registered_handler_reply() {
    let engine = Arc::new(FakeQueryEngine::default());
    let workflow_id = fresh_workflow();
    let process = WorkflowProcessHandle::new(7);
    let reply = payload("answer");
    engine.set_resident_workflow(workflow_id.clone(), process, known_workflow(reply.clone()));
    let service = QueryService::new(Arc::clone(&engine), QUERY_TIMEOUT);

    let returned = ask(&service, &engine, &workflow_id, "state", payload("args")).unwrap();

    assert_eq!(returned, reply);
    assert_eq!(engine.query_count(process), 1);
    assert_eq!(engine.last_payload(process), Some(payload("args")));
}

#[test]
fn query_does_not_record_events() -> Result<(), Box<dyn Error>> {
    let store = InMemoryStore::default();
    let engine = Arc::new(FakeQueryEngine::default());
    let workflow_id = fresh_workflow();
    let process = WorkflowProcessHandle::new(8);
    engine.set_resident_workflow(
        workflow_id.clone(),
        process,
        known_workflow(payload("visible-state")),
    );
    let service = QueryService::new(Arc::clone(&engine), QUERY_TIMEOUT);

    let reply = ask(&service, &engine, &workflow_id, "state", payload("args")).unwrap();
    assert_eq!(reply, payload("visible-state"));

    let history = store.read_history(&workflow_id).unwrap();
    assert!(history.is_empty());
    Ok(())
}

#[test]
fn unknown_query_returns_typed_error_and_workflow_remains_live() {
    let engine = Arc::new(FakeQueryEngine::default());
    let workflow_id = fresh_workflow();
    let process = WorkflowProcessHandle::new(9);
    engine.set_resident_workflow(
        workflow_id.clone(),
        process,
        known_workflow(payload("known")),
    );
    let service = QueryService::new(Arc::clone(&engine), QUERY_TIMEOUT);

    let result = ask(&service, &engine, &workflow_id, "missing", payload("args"));

    assert_eq!(result, Err(QueryError::UnknownQuery("missing".to_owned())));
    assert_eq!(
        engine.resolve_workflow(&workflow_id),
        Ok(WorkflowResidency::Resident(process))
    );
    assert_eq!(engine.query_count(process), 1);
}

#[test]
fn non_replying_workflow_times_out() {
    let engine = Arc::new(FakeQueryEngine::default());
    let workflow_id = fresh_workflow();
    let process = WorkflowProcessHandle::new(10);
    let mut handlers = HashMap::new();
    handlers.insert("slow".to_owned(), QueryBehavior::HoldSender);
    engine.set_resident_workflow(
        workflow_id.clone(),
        process,
        FakeQueryWorkflow {
            handlers,
            query_count: 0,
            last_payload: None,
        },
    );
    let service = QueryService::new(Arc::clone(&engine), QUERY_TIMEOUT);

    let result = ask(&service, &engine, &workflow_id, "slow", payload("args"));

    assert_eq!(result, Err(QueryError::Timeout));
}

#[test]
fn terminal_and_non_resident_workflows_are_not_running() {
    let engine = Arc::new(FakeQueryEngine::default());
    let terminal_id = fresh_workflow();
    let non_resident_id = fresh_workflow();
    engine.set_residency(terminal_id.clone(), WorkflowResidency::Terminal);
    engine.set_residency(non_resident_id.clone(), WorkflowResidency::NonResident);
    let service = QueryService::new(Arc::clone(&engine), QUERY_TIMEOUT);

    let terminal_result = ask(&service, &engine, &terminal_id, "state", payload("args"));
    let non_resident_result = ask(
        &service,
        &engine,
        &non_resident_id,
        "state",
        payload("args"),
    );

    assert_eq!(terminal_result, Err(QueryError::NotRunning(terminal_id)));
    assert_eq!(
        non_resident_result,
        Err(QueryError::NotRunning(non_resident_id))
    );
}

#[test]
fn unknown_workflow_returns_typed_unknown_error() {
    let engine = Arc::new(FakeQueryEngine::default());
    let workflow_id = fresh_workflow();
    let service = QueryService::new(Arc::clone(&engine), QUERY_TIMEOUT);

    let result = ask(&service, &engine, &workflow_id, "state", payload("args"));

    assert_eq!(result, Err(QueryError::Unknown(workflow_id)));
}

#[test]
fn the_timeout_is_the_one_given() {
    let service = QueryService::new(Arc::new(FakeQueryEngine::default()), QUERY_TIMEOUT);
    assert_eq!(service.query_timeout(), QUERY_TIMEOUT);
}

#[test]
fn failed_deliveries_and_dropped_replies_are_errors() {
    let lost = || EngineSeamError::Delivery {
        reason: "gone".to_owned(),
    };
    assert_eq!(
        query_outcome(Err(lost()), QueryReply::TimedOut),
        Err(QueryError::Engine(lost()))
    );
    assert_eq!(
        query_outcome(Ok(()), QueryReply::Dropped),
        Err(QueryError::ReplyDropped)
    );
}

#[test]
fn query_error_texts() {
    let id = WorkflowId::new(1);
    let text = "00000000-0000-0000-0000-000000000001";
    assert_eq!(
        QueryError::UnknownQuery("size".to_owned()).to_string(),
        "unknown query size"
    );
    assert_eq!(QueryError::Timeout.to_string(), "query reply timed out");
    assert_eq!(
        QueryError::NotRunning(id).to_string(),
        format!("workflow {text} is not running")
    );
    assert_eq!(
        QueryError::Unknown(id).to_string(),
        format!("workflow {text} is unknown")
    );
    assert_eq!(
        QueryError::ReplyDropped.to_string(),
        "query reply channel closed before a handler response was sent"
    );
    assert_eq!(
        QueryError::Engine(EngineSeamError::UnknownWorkflow { workflow_id: id }).to_string(),
        format!("query engine seam failed: unknown workflow {text}")
    );
}
