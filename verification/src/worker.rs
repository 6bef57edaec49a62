//! What a worker does with the coordinator's messages.
use vstd::prelude::*;

use crate::executor::{ExecutionEvent, ExecutionRequest};
use crate::ids::{NodeId, TaskId};
use crate::policy::{command_of, debug_text, ConfigPolicy, PolicyEngine};
use crate::protocol::{
    CoordinatorMessage, DecisionKind, NodeHeartbeat, OperationRequest, PolicyDecision, TaskSpec,
    WireMessage, WorkerError, WorkerMessage,
};
use crate::sandbox::{
    is_plain_process, NoneSandbox, SandboxBackend, SandboxCommand, SandboxError,
};
use crate::time::Timestamp;

verus! {

/// How long a worker waits before it connects again: a second at first, then twice as long after
/// each failure, up to half a minute.
#[derive(Clone, Copy, Debug, PartialEq, Eq, Structural)]
pub struct Backoff {
    seconds: u64,
}

impl Backoff {
    /// The seconds of the next wait.
    pub closed spec fn next(self) -> u64 {
        self.seconds
    }

    #[verifier::type_invariant]
    closed spec fn bounded(self) -> bool {
        1 <= self.seconds <= 30
    }

    /// The wait after a success.
    pub fn new() -> (r: Self)
        ensures
            r.next() == 1,
    {
        Backoff { seconds: 1 }
    }

    /// The seconds to wait after a failure, and the backoff for the failure after that.
    pub fn fail(self) -> (r: (u64, Backoff))
        ensures
            r.0 == self.next(),
            1 <= r.0 <= 30,
            r.1.next() == (if self.next() * 2 < 30 {
                self.next() * 2
            } else {
                30
            }),
    {
        proof {
            use_type_invariant(&self);
        }
        let doubled = self.seconds * 2;
        let next = if doubled < 30 {
            doubled
        } else {
            30
        };
        (self.seconds, Backoff { seconds: next })
    }
}

/// The name of a node: the one it was given, or else its host's.
pub fn node_name(given: Option<String>, hostname: &str) -> (r: String)
    ensures
        r@ == (match given {
            Some(name) => name@,
            None => hostname@,
        }),
{
    match given {
        Some(name) => name,
        None => hostname.to_owned(),
    }
}

/// The sign of life of a worker.
pub fn heartbeat(node_id: &NodeId, running_tasks: usize, now: Timestamp) -> (r: WorkerMessage)
    ensures
        r == WorkerMessage::Heartbeat(
            NodeHeartbeat { node_id: *node_id, timestamp: now, running_tasks },
        ),
{
    WorkerMessage::Heartbeat(
        NodeHeartbeat { node_id: node_id.clone(), timestamp: now, running_tasks },
    )
}

/// What a message asks of a worker.
#[derive(Debug)]
pub enum WorkerStep {
    Start(TaskSpec),
    Kill(TaskId),
    Ignore,
}

/// What a message asks of a worker; anything but a task to start or to end is ignored.
pub fn worker_step(message: WireMessage) -> (r: WorkerStep)
    ensures
        r == (match message {
            WireMessage::Coordinator(CoordinatorMessage::StartTask(spec)) => WorkerStep::Start(
                spec,
            ),
            WireMessage::Coordinator(CoordinatorMessage::KillTask(task_id)) => WorkerStep::Kill(
                task_id,
            ),
            _ => WorkerStep::Ignore,
        }),
{
    match message {
        WireMessage::Coordinator(CoordinatorMessage::StartTask(spec)) => WorkerStep::Start(spec),
        WireMessage::Coordinator(CoordinatorMessage::KillTask(task_id)) => WorkerStep::Kill(task_id),
        _ => WorkerStep::Ignore,
    }
}

/// What the coordinator is told where a task could not be ended.
pub fn kill_failure(node_id: &NodeId, task_id: TaskId, message: String) -> (r: WorkerMessage)
    ensures
        r == WorkerMessage::Error(
            WorkerError { node_id: Some(*node_id), task_id: Some(task_id), message },
        ),
{
    WorkerMessage::Error(
        WorkerError { node_id: Some(node_id.clone()), task_id: Some(task_id), message },
    )
}

/// What the coordinator is told where a task could not be started.
pub fn start_failure(message: String) -> (r: WorkerMessage)
    ensures
        r == WorkerMessage::Error(WorkerError { node_id: None, task_id: None, message }),
{
    WorkerMessage::Error(WorkerError { node_id: None, task_id: None, message })
}

/// What becomes of a task.
#[derive(Debug)]
pub enum StartStep {
    /// The policy does not let it start: the coordinator is told.
    Refuse(WorkerMessage),
    /// It becomes no process.
    Fail(SandboxError),
    /// It is executed.
    Execute(ExecutionRequest),
}

/// Whether a message tells the coordinator that a task was refused.
pub open spec fn is_refusal(spec: TaskSpec, decision: PolicyDecision, message: WorkerMessage) -> bool {
    message == WorkerMessage::Error(
        WorkerError {
            node_id: Some(spec.run.node_id),
            task_id: Some(spec.run.task_id),
            message: decision.reason,
        },
    )
}

/// Refuses a task unless it is allowed.
pub fn check_decision(spec: &TaskSpec, decision: PolicyDecision) -> (r: Result<
    PolicyDecision,
    WorkerMessage,
>)
    ensures
        match r {
            Ok(allowed) => decision.decision == DecisionKind::Allow && allowed == decision,
            Err(message) => decision.decision != DecisionKind::Allow && is_refusal(
                *spec,
                decision,
                message,
            ),
        },
{
    match decision.decision {
        DecisionKind::Allow => Ok(decision),
        DecisionKind::Ask | DecisionKind::Deny => Err(
            WorkerMessage::Error(
                WorkerError {
                    node_id: Some(spec.run.node_id.clone()),
                    task_id: Some(spec.run.task_id.clone()),
                    message: decision.reason,
                },
            ),
        ),
    }
}

/// Whether a step is what becomes of a task under a decision of its policy and what its sandbox
/// prepares for it.
pub open spec fn is_start<S: SandboxBackend>(
    spec: TaskSpec,
    decision: PolicyDecision,
    sandbox: S,
    r: StartStep,
) -> bool {
    match r {
        StartStep::Refuse(message) => decision.decision != DecisionKind::Allow && is_refusal(
            spec,
            decision,
            message,
        ),
        StartStep::Fail(e) => decision.decision == DecisionKind::Allow && sandbox.prepares(
            spec.run,
            decision,
            Err(e),
        ),
        StartStep::Execute(request) => decision.decision == DecisionKind::Allow
            && sandbox.prepares(spec.run, decision, Ok(request.command)) && request.spec
            == spec.run,
    }
}

/// Decides what becomes of a task: the policy is asked first, then the sandbox, and only then is
/// the task executed.
pub fn start_task<P: PolicyEngine, S: SandboxBackend>(
    spec: TaskSpec,
    policy: &P,
    sandbox: &S,
) -> (r: StartStep)
    ensures
        exists|operation: OperationRequest, decision: PolicyDecision| #[trigger]
            policy.decides(operation, spec.run, decision) && operation.starts(
                spec.run,
                "agent-worker"@,
            ) && is_start(spec, decision, *sandbox, r),
{
    let operation = OperationRequest::process_start(&spec.run, "agent-worker");
    let decision = policy.authorize(&operation, &spec.run);
    let ghost decided = decision;
    match check_decision(&spec, decision) {
        Err(message) => StartStep::Refuse(message),
        Ok(allowed) => match sandbox.prepare(&spec.run, &allowed) {
            Ok(command) => StartStep::Execute(ExecutionRequest { spec: spec.run, command }),
            Err(e) => StartStep::Fail(e),
        },
    }
}

/// What the coordinator is told of what happens to a task.
pub fn event_message(event: ExecutionEvent) -> (r: WorkerMessage)
    ensures
        r == (match event {
            ExecutionEvent::Started(started) => WorkerMessage::TaskStarted(started),
            ExecutionEvent::Log(line) => WorkerMessage::LogLine(line),
            ExecutionEvent::Exited(exited) => WorkerMessage::TaskExited(exited),
        }),
{
    match event {
        ExecutionEvent::Started(started) => WorkerMessage::TaskStarted(started),
        ExecutionEvent::Log(line) => WorkerMessage::LogLine(line),
        ExecutionEvent::Exited(exited) => WorkerMessage::TaskExited(exited),
    }
}

/// Under a policy that does not permit a task's command the task is refused, whatever its sandbox,
/// and the coordinator is told why.
pub proof fn law_denied_command_is_never_executed<S: SandboxBackend>(
    operation: OperationRequest,
    spec: TaskSpec,
    policy: ConfigPolicy,
    sandbox: S,
    decision: PolicyDecision,
    r: StartStep,
)
    requires
        policy.decides(operation, spec.run, decision),
        is_start(spec, decision, sandbox, r),
        !policy.permits(command_of(spec.run)),
    ensures
        r is Refuse,
        decision.reason@ == policy.deny_reason(
            command_of(spec.run),
            debug_text(command_of(spec.run)),
        ),
        is_refusal(spec, decision, r->Refuse_0),
{
}

/// Under a policy that permits a task's command the task is executed without a sandbox as the
/// process it names, unless it names none.
pub proof fn law_permitted_command_is_executed(
    operation: OperationRequest,
    spec: TaskSpec,
    policy: ConfigPolicy,
    sandbox: NoneSandbox,
    decision: PolicyDecision,
    r: StartStep,
)
    requires
        policy.decides(operation, spec.run, decision),
        is_start(spec, decision, sandbox, r),
        policy.permits(command_of(spec.run)),
    ensures
        match r {
            StartStep::Execute(request) => request.spec == spec.run && is_plain_process(
                spec.run,
                request.command,
            ),
            StartStep::Fail(e) => spec.run.argv@.len() == 0,
            StartStep::Refuse(_) => false,
        },
{
}

/// Whatever is executed was allowed by the policy and is the process that the sandbox prepared.
pub proof fn law_execution_is_allowed_and_prepared<P: PolicyEngine, S: SandboxBackend>(
    operation: OperationRequest,
    spec: TaskSpec,
    policy: P,
    sandbox: S,
    decision: PolicyDecision,
    request: ExecutionRequest,
)
    requires
        policy.decides(operation, spec.run, decision),
        is_start(spec, decision, sandbox, StartStep::Execute(request)),
    ensures
        decision.decision == DecisionKind::Allow,
        sandbox.prepares(spec.run, decision, Ok::<SandboxCommand, SandboxError>(request.command)),
        request.spec == spec.run,
{
}

/// What becomes of a task: refused under the policy's reason, in the name of its node and itself,
/// unless the decision lets it pass; else the process that the sandbox prepares for it, or the
/// sandbox's failure.
pub proof fn law_task_goes_by_decision_and_sandbox<S: SandboxBackend>(
    spec: TaskSpec,
    decision: PolicyDecision,
    sandbox: S,
    r: StartStep,
)
    requires
        is_start(spec, decision, sandbox, r),
    ensures
        r is Refuse <==> decision.decision != DecisionKind::Allow,
        r matches StartStep::Refuse(message) ==> {
            &&& message matches WorkerMessage::Error(error)
            &&& error.node_id == Some(spec.run.node_id)
            &&& error.task_id == Some(spec.run.task_id)
            &&& error.message == decision.reason
        },
        r matches StartStep::Execute(request) ==> request.spec == spec.run && sandbox.prepares(
            spec.run,
            decision,
            Ok::<SandboxCommand, SandboxError>(request.command),
        ),
        r matches StartStep::Fail(e) ==> sandbox.prepares(
            spec.run,
            decision,
            Err::<SandboxCommand, SandboxError>(e),
        ),
{
}

} // verus!
