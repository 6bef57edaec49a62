//! Runs of a command on nodes: which tasks they become, and how a client waits for them.
use vstd::prelude::*;

use crate::coordinator::{
    ids, is_loss, CoordinatorEvent, CoordinatorState, Effect, LeaseRecord, StateView,
};
use crate::ids::{is_fresh_id, JobId, LeaseId, NodeId, TaskId};
use crate::leases::{contains_node, holds_node, no_lease_text};
use crate::protocol::{
    copy_env, copy_nodes, copy_texts, extend_env, ClientResponse, CoordinatorMessage, JobFinished,
    LogLine, NetworkMode, RunProcessRequest, RunSpec, RunStarted, TaskAssignment, TaskExited,
    TaskSpec, WorkerError, WorkerMessage,
};
use crate::table::Table;
use crate::text::{enclosed, prefixed};
use crate::time::Timestamp;

verus! {

/// Why a run is refused.
#[derive(Debug)]
pub enum RunRefusal {
    EmptyCommand,
    NoLease(LeaseId),
    OutsideLease(LeaseId),
}

impl RunRefusal {
    /// The refusal in words.
    pub open spec fn text(self) -> Seq<char> {
        match self {
            RunRefusal::EmptyCommand => "run argv cannot be empty"@,
            RunRefusal::NoLease(lease_id) => no_lease_text(lease_id@),
            RunRefusal::OutsideLease(lease_id) => "run nodes must be a subset of lease "@
                + lease_id@,
        }
    }

    /// The refusal in words.
    pub fn message(&self) -> (r: String)
        ensures
            r@ == self.text(),
    {
        match self {
            RunRefusal::EmptyCommand => "run argv cannot be empty".to_owned(),
            RunRefusal::NoLease(lease_id) => enclosed(
                "lease ",
                lease_id.as_str(),
                " was not found",
            ),
            RunRefusal::OutsideLease(lease_id) => prefixed(
                "run nodes must be a subset of lease ",
                lease_id.as_str(),
            ),
        }
    }
}

/// What a run does for one of its nodes: it tells the client that the node is not connected, or
/// it records the task that it gives to the node.
#[derive(Debug)]
pub enum RunStep {
    NotConnected(NodeId),
    Record(TaskAssignment),
}

/// The order to a worker to start a task.
#[derive(Debug)]
pub struct StartOrder {
    pub connection: u64,
    pub spec: TaskSpec,
}

impl StartOrder {
    /// What the worker is told.
    pub fn message(self) -> (r: CoordinatorMessage)
        ensures
            r == CoordinatorMessage::StartTask(self.spec),
    {
        CoordinatorMessage::StartTask(self.spec)
    }
}

/// A run that was not refused. Its steps come first, node by node; then the client is told; then
/// the workers get their orders.
#[derive(Debug)]
pub struct RunPlan {
    pub job_id: JobId,
    pub steps: Vec<RunStep>,
    pub assignments: Vec<TaskAssignment>,
    pub orders: Vec<StartOrder>,
    pub wait: bool,
}

/// The tasks that steps record.
pub open spec fn recorded(steps: Seq<RunStep>) -> Seq<TaskAssignment>
    decreases steps.len(),
{
    if steps.len() == 0 {
        Seq::empty()
    } else {
        match steps.last() {
            RunStep::NotConnected(_) => recorded(steps.drop_last()),
            RunStep::Record(task) => recorded(steps.drop_last()).push(task),
        }
    }
}

/// Whether each task that steps record has the identifier at the step's place.
pub open spec fn takes_ids(steps: Seq<RunStep>, task_ids: Seq<TaskId>) -> bool {
    &&& steps.len() <= task_ids.len()
    &&& forall|i: int|
        0 <= i < steps.len() ==> (#[trigger] steps[i] matches RunStep::Record(task) ==> task.task_id
            == task_ids[i])
}

/// Whether the identifiers of tasks are fresh ones.
pub open spec fn are_fresh(tasks: Seq<TaskAssignment>) -> bool {
    forall|i: int| 0 <= i < tasks.len() ==> is_fresh_id((#[trigger] tasks[i]).task_id@, "task"@)
}

/// Fresh task identifiers, each drawn anew.
fn fresh_task_ids(n: usize) -> (r: Vec<TaskId>)
    ensures
        r@.len() == n,
        forall|i: int| 0 <= i < n ==> is_fresh_id((#[trigger] r@[i])@, "task"@),
{
    let mut r: Vec<TaskId> = Vec::new();
    for i in 0..n
        invariant
            r@.len() == i,
            forall|k: int| 0 <= k < i ==> is_fresh_id((#[trigger] r@[k])@, "task"@),
    {
        r.push(TaskId::new());
    }
    r
}

/// Whether an identifier is one of the first `n`.
pub open spec fn is_among(task_ids: Seq<TaskId>, n: int, task_id: TaskId) -> bool {
    exists|i: int| 0 <= i < n && #[trigger] task_ids[i] == task_id
}

/// Each task that steps record has one of the identifiers that were given to the steps.
proof fn lemma_recorded_ids(steps: Seq<RunStep>, task_ids: Seq<TaskId>)
    requires
        takes_ids(steps, task_ids),
    ensures
        forall|k: int|
            0 <= k < recorded(steps).len() ==> is_among(
                task_ids,
                steps.len() as int,
                (#[trigger] recorded(steps)[k]).task_id,
            ),
    decreases steps.len(),
{
    if steps.len() > 0 {
        let n = steps.len() as int;
        let fewer = steps.drop_last();
        assert forall|i: int| 0 <= i < fewer.len() implies (#[trigger] fewer[i] matches
            RunStep::Record(task) ==> task.task_id == task_ids[i]) by {
            assert(fewer[i] == steps[i]);
        }
        lemma_recorded_ids(fewer, task_ids);
        assert(steps[n - 1] == steps.last());
        assert forall|k: int| 0 <= k < recorded(steps).len() implies is_among(
            task_ids,
            n,
            (#[trigger] recorded(steps)[k]).task_id,
        ) by {
            if k < recorded(fewer).len() {
                assert(recorded(steps)[k] == recorded(fewer)[k]);
                assert(is_among(task_ids, n - 1, recorded(fewer)[k].task_id));
            } else {
                assert(task_ids[n - 1] == recorded(steps)[k].task_id);
            }
        }
    }
}

/// Whether no two tasks have the same identifier.
pub open spec fn are_distinct(tasks: Seq<TaskAssignment>) -> bool {
    forall|i: int, j: int|
        0 <= i < j < tasks.len() ==> (#[trigger] tasks[i]).task_id@ != (
        #[trigger] tasks[j]).task_id@
}

/// Where no two of the identifiers that were given are the same, no two tasks of a run have the
/// same identifier.
pub proof fn law_distinct_ids_give_distinct_tasks(steps: Seq<RunStep>, task_ids: Seq<TaskId>)
    requires
        takes_ids(steps, task_ids),
        forall|i: int, j: int|
            0 <= i < j < task_ids.len() ==> (#[trigger] task_ids[i])@ != (#[trigger] task_ids[j])@,
    ensures
        are_distinct(recorded(steps)),
    decreases steps.len(),
{
    if steps.len() > 0 {
        let n = steps.len() as int;
        let fewer = steps.drop_last();
        assert forall|i: int| 0 <= i < fewer.len() implies (#[trigger] fewer[i] matches
            RunStep::Record(task) ==> task.task_id == task_ids[i]) by {
            assert(fewer[i] == steps[i]);
        }
        law_distinct_ids_give_distinct_tasks(fewer, task_ids);
        lemma_recorded_ids(fewer, task_ids);
        assert(steps[n - 1] == steps.last());
        let before = recorded(fewer);
        let after = recorded(steps);
        assert forall|i: int, j: int| 0 <= i < j < after.len() implies (
        #[trigger] after[i]).task_id@ != (#[trigger] after[j]).task_id@ by {
            assert(after[i] == before[i]);
            if j < before.len() {
                assert(after[j] == before[j]);
            } else {
                assert(is_among(task_ids, n - 1, before[i].task_id));
                let k = choose|k: int| 0 <= k < n - 1 && #[trigger] task_ids[k] == before[i].task_id;
                assert(task_ids[k]@ != task_ids[n - 1]@);
            }
        }
    }
}

/// Whether the nodes of a run are all among those of a lease.
pub open spec fn within(nodes: Seq<NodeId>, lease: Seq<NodeId>) -> bool {
    forall|i: int| 0 <= i < nodes.len() ==> holds_node(lease, (#[trigger] nodes[i])@)
}

/// Whether the nodes of a run are all among those of a lease.
fn all_within(nodes: &Vec<NodeId>, lease: &Vec<NodeId>) -> (r: bool)
    ensures
        r == within(nodes@, lease@),
{
    for i in 0..nodes.len()
        invariant
            forall|k: int| 0 <= k < i ==> holds_node(lease@, (#[trigger] nodes@[k])@),
    {
        if !contains_node(lease, &nodes[i]) {
            return false;
        }
    }
    true
}

impl StateView {
    /// The lease that a run names, if it is active.
    pub open spec fn lease_of(self, request: RunProcessRequest) -> Option<LeaseRecord> {
        match request.lease_id {
            Some(lease_id) => if self.leases.contains_key(lease_id@) {
                Some(self.leases[lease_id@])
            } else {
                None
            },
            None => None,
        }
    }

    /// Why a run is refused, if it is: it has no command, or it names a lease that is not active,
    /// or nodes outside its lease.
    pub open spec fn run_refusal(self, request: RunProcessRequest) -> Option<RunRefusal> {
        if request.argv@.len() == 0 {
            Some(RunRefusal::EmptyCommand)
        } else {
            match request.lease_id {
                Some(lease_id) => match self.lease_of(request) {
                    None => Some(RunRefusal::NoLease(lease_id)),
                    Some(lease) => if within(request.nodes@, lease.nodes@) {
                        None
                    } else {
                        Some(RunRefusal::OutsideLease(lease_id))
                    },
                },
                None => None,
            }
        }
    }

    /// The environment of a run on a node: the run's, then the node's own.
    pub open spec fn run_env(request: RunProcessRequest, node_id: Seq<char>) -> Map<
        Seq<char>,
        String,
    > {
        if request.node_env@.contains_key(node_id) {
            request.env@.union_prefer_right(request.node_env@[node_id]@)
        } else {
            request.env@
        }
    }

    /// Whether a step is what a run does for a node.
    pub open spec fn is_step(self, job_id: JobId, node_id: Seq<char>, step: RunStep) -> bool {
        match step {
            RunStep::NotConnected(absent) => !self.nodes.contains_key(node_id) && absent@
                == node_id,
            RunStep::Record(task) => {
                &&& self.nodes.contains_key(node_id)
                &&& task.job_id == job_id
                &&& task.node_id@ == node_id
            },
        }
    }

    /// Whether an order starts a task of a run as the request says, on the task's node.
    pub open spec fn is_order(
        self,
        request: RunProcessRequest,
        task: TaskAssignment,
        order: StartOrder,
    ) -> bool {
        let run = order.spec.run;
        &&& self.nodes.contains_key(task.node_id@)
        &&& order.connection == self.nodes[task.node_id@].connection
        &&& run.job_id == task.job_id
        &&& run.task_id == task.task_id
        &&& run.node_id == task.node_id
        &&& run.argv@ == request.argv@
        &&& run.cwd@ == (match request.cwd {
            Some(cwd) => cwd@,
            None => "."@,
        })
        &&& run.env@ == StateView::run_env(request, task.node_id@)
        &&& run.timeout == request.timeout
        &&& run.is_unlimited()
    }
}

impl CoordinatorState {
    /// The nodes of a run: those that it names, or else those of its lease, or else all.
    pub open spec fn run_choice(self, request: RunProcessRequest) -> Seq<Seq<char>> {
        let asked = if request.nodes@.len() > 0 {
            ids(request.nodes@)
        } else {
            match self@.lease_of(request) {
                Some(lease) => ids(lease.nodes@),
                None => Seq::empty(),
            }
        };
        if asked.len() > 0 {
            asked
        } else {
            self.nodes.keys()
        }
    }

    /// The nodes of a run, or why it is refused.
    fn choose_nodes(&self, request: &RunProcessRequest) -> (r: Result<Vec<NodeId>, RunRefusal>)
        ensures
            match r {
                Ok(nodes) => self@.run_refusal(*request) is None && ids(nodes@) == self.run_choice(
                    *request,
                ),
                Err(refusal) => self@.run_refusal(*request) == Some(refusal),
            },
    {
        if request.argv.len() == 0 {
            return Err(RunRefusal::EmptyCommand);
        }
        let mut nodes = copy_nodes(&request.nodes);
        match &request.lease_id {
            Some(lease_id) => match self.leases.get(lease_id.as_str()) {
                Some(lease) => {
                    if nodes.len() == 0 {
                        nodes = copy_nodes(&lease.nodes);
                    } else if !all_within(&nodes, &lease.nodes) {
                        return Err(RunRefusal::OutsideLease(lease_id.clone()));
                    }
                },
                None => {
                    return Err(RunRefusal::NoLease(lease_id.clone()));
                },
            },
            None => {},
        }
        proof {
            assert(nodes@.len() == ids(nodes@).len());
        }
        if nodes.len() == 0 {
            let n = self.nodes.len();
            nodes = self.first_nodes(n);
            proof {
                assert(self.nodes.keys().take(n as int) =~= self.nodes.keys());
            }
        }
        Ok(nodes)
    }

    /// The order that starts a task of a run on a connected node.
    pub fn start_order(&self, request: &RunProcessRequest, task: &TaskAssignment) -> (r: Option<
        StartOrder,
    >)
        ensures
            r is Some <==> self@.nodes.contains_key(task.node_id@),
            r matches Some(order) ==> self@.is_order(*request, *task, order),
    {
        let node = match self.nodes.get(task.node_id.as_str()) {
            Some(node) => node,
            None => {
                return None;
            },
        };
        let cwd = match &request.cwd {
            Some(cwd) => cwd.clone(),
            None => ".".to_owned(),
        };
        let mut env = copy_env(&request.env);
        match request.node_env.get(task.node_id.as_str()) {
            Some(node_env) => extend_env(&mut env, node_env),
            None => {},
        }
        let mut run = RunSpec::simple(
            task.job_id.clone(),
            task.task_id.clone(),
            task.node_id.clone(),
            copy_texts(&request.argv),
            cwd,
            env,
        );
        run.timeout = request.timeout;
        Some(StartOrder { connection: node.connection, spec: TaskSpec { run } })
    }

    /// Whether a plan is what a run does: a step for each of its nodes in turn, and for each
    /// task that the steps record an order to its worker.
    pub open spec fn is_plan(self, request: RunProcessRequest, plan: RunPlan) -> bool {
        let choice = self.run_choice(request);
        &&& plan.steps@.len() == choice.len()
        &&& forall|i: int|
            0 <= i < choice.len() ==> self@.is_step(plan.job_id, choice[i], #[trigger] plan.steps@[i])
        &&& plan.assignments@ == recorded(plan.steps@)
        &&& plan.orders@.len() == plan.assignments@.len()
        &&& forall|i: int|
            0 <= i < plan.orders@.len() ==> self@.is_order(
                request,
                plan.assignments@[i],
                #[trigger] plan.orders@[i],
            )
        &&& plan.wait == request.wait
    }

    /// Plans a run under the given identifiers, or says why it is refused. Each node has a task
    /// identifier of its own: the one at the node's place.
    pub fn plan_with(
        &self,
        request: &RunProcessRequest,
        job_id: JobId,
        task_ids: &Vec<TaskId>,
    ) -> (r: Result<RunPlan, RunRefusal>)
        requires
            task_ids@.len() >= self.run_choice(*request).len(),
        ensures
            match r {
                Ok(plan) => {
                    &&& self@.run_refusal(*request) is None
                    &&& plan.job_id == job_id
                    &&& self.is_plan(*request, plan)
                    &&& takes_ids(plan.steps@, task_ids@)
                },
                Err(refusal) => self@.run_refusal(*request) == Some(refusal),
            },
    {
        let nodes = match self.choose_nodes(request) {
            Ok(nodes) => nodes,
            Err(refusal) => {
                return Err(refusal);
            },
        };
        let ghost choice = self.run_choice(*request);
        proof {
            assert(nodes@.len() == ids(nodes@).len());
        }
        let mut steps: Vec<RunStep> = Vec::new();
        let mut assignments: Vec<TaskAssignment> = Vec::new();
        let mut orders: Vec<StartOrder> = Vec::new();
        for i in 0..nodes.len()
            invariant
                ids(nodes@) == choice,
                nodes@.len() <= task_ids@.len(),
                steps@.len() == i,
                forall|k: int|
                    0 <= k < i ==> self@.is_step(job_id, choice[k], #[trigger] steps@[k]),
                takes_ids(steps@, task_ids@),
                assignments@ == recorded(steps@),
                orders@.len() == assignments@.len(),
                forall|k: int|
                    0 <= k < orders@.len() ==> self@.is_order(
                        *request,
                        assignments@[k],
                        #[trigger] orders@[k],
                    ),
        {
            let ghost before = steps@;
            let task = TaskAssignment {
                job_id: job_id.clone(),
                task_id: task_ids[i].clone(),
                node_id: nodes[i].clone(),
            };
            proof {
                assert(choice[i as int] == nodes@[i as int]@);
            }
            match self.start_order(request, &task) {
                Some(order) => {
                    let ghost tasks_before = assignments@;
                    let ghost orders_before = orders@;
                    steps.push(RunStep::Record(task.clone()));
                    assignments.push(task);
                    orders.push(order);
                    proof {
                        assert forall|k: int| 0 <= k < orders@.len() implies self@.is_order(
                            *request,
                            assignments@[k],
                            #[trigger] orders@[k],
                        ) by {
                            if k < orders_before.len() {
                                assert(orders@[k] == orders_before[k]);
                                assert(assignments@[k] == tasks_before[k]);
                            }
                        }
                    }
                },
                None => {
                    steps.push(RunStep::NotConnected(nodes[i].clone()));
                },
            }
            proof {
                assert(steps@.drop_last() =~= before);
            }
        }
        proof {
            assert(nodes@.len() == choice.len());
        }
        Ok(RunPlan { job_id, steps, assignments, orders, wait: request.wait })
    }

    /// Plans a run under the given identifier and fresh ones for its tasks, one drawn for each
    /// node, or says why it is refused.
    pub fn plan_run(&self, request: &RunProcessRequest, job_id: JobId) -> (r: Result<
        RunPlan,
        RunRefusal,
    >)
        ensures
            match r {
                Ok(plan) => {
                    &&& self@.run_refusal(*request) is None
                    &&& plan.job_id == job_id
                    &&& self.is_plan(*request, plan)
                    &&& are_fresh(plan.assignments@)
                },
                Err(refusal) => self@.run_refusal(*request) == Some(refusal),
            },
    {
        let nodes = match self.choose_nodes(request) {
            Ok(nodes) => nodes,
            Err(refusal) => {
                return Err(refusal);
            },
        };
        let task_ids = fresh_task_ids(nodes.len());
        proof {
            assert(nodes@.len() == ids(nodes@).len());
        }
        match self.plan_with(request, job_id, &task_ids) {
            Ok(plan) => {
                proof {
                    lemma_recorded_ids(plan.steps@, task_ids@);
                }
                Ok(plan)
            },
            Err(refusal) => Err(refusal),
        }
    }

    /// Plans a run under a fresh identifier, or says why it is refused.
    pub fn run_process(&self, request: &RunProcessRequest) -> (r: Result<RunPlan, RunRefusal>)
        ensures
            match r {
                Ok(plan) => {
                    &&& self@.run_refusal(*request) is None
                    &&& is_fresh_id(plan.job_id@, "job"@)
                    &&& self.is_plan(*request, plan)
                    &&& are_fresh(plan.assignments@)
                },
                Err(refusal) => self@.run_refusal(*request) == Some(refusal),
            },
    {
        self.plan_run(request, JobId::new())
    }
}

impl RunPlan {
    /// What the client is told once the steps are done: the tasks, or that there are none.
    pub fn reply(&self) -> (r: ClientResponse)
        ensures
            self.assignments@.len() == 0 ==> (r matches ClientResponse::Error(text) && text@
                == "no connected nodes matched the request"@),
            self.assignments@.len() > 0 ==> (r matches ClientResponse::RunStarted(started)
                && started.job_id == self.job_id && started.tasks@ == self.assignments@),
    {
        if self.assignments.len() == 0 {
            return ClientResponse::Error("no connected nodes matched the request".to_owned());
        }
        let tasks = self.assignments.clone();
        proof {
            assert(tasks@ =~= self.assignments@);
        }
        ClientResponse::RunStarted(RunStarted { job_id: self.job_id.clone(), tasks })
    }
}

/// What comes after the workers have got their orders.
#[derive(Debug)]
pub enum RunEnd {
    /// No task was started: there is nothing more to do.
    Nothing,
    /// The client is told that the run goes on without it.
    Acknowledge(ClientResponse),
    /// The client is told of all that happens to the tasks.
    Wait(JobWait),
}

impl RunPlan {
    /// What comes after the workers have got their orders.
    pub fn end(&self) -> (r: RunEnd)
        ensures
            self.assignments@.len() == 0 ==> r is Nothing,
            self.assignments@.len() > 0 && !self.wait ==> r == RunEnd::Acknowledge(
                ClientResponse::Ack,
            ),
            self.assignments@.len() > 0 && self.wait ==> (r matches RunEnd::Wait(wait) && wait@ == (
            WaitView {
                job_id: self.job_id,
                pending: task_ids(self.assignments@),
                exits: Seq::empty(),
            }) && wait@.accounts_for(task_ids(self.assignments@))),
    {
        if self.assignments.len() == 0 {
            RunEnd::Nothing
        } else if self.wait {
            RunEnd::Wait(JobWait::new(self.job_id.clone(), &self.assignments))
        } else {
            RunEnd::Acknowledge(ClientResponse::Ack)
        }
    }
}

/// What is left to wait for of a run: the tasks that have not ended, and the ends so far.
#[derive(Debug)]
pub struct JobWait {
    pub job_id: JobId,
    pub pending: Table<()>,
    pub exits: Vec<TaskExited>,
}

/// What a `JobWait` says.
#[verifier::ext_equal]
pub struct WaitView {
    pub job_id: JobId,
    pub pending: Set<Seq<char>>,
    pub exits: Seq<TaskExited>,
}

impl View for JobWait {
    type V = WaitView;

    open spec fn view(&self) -> WaitView {
        WaitView { job_id: self.job_id, pending: self.pending@.dom(), exits: self.exits@ }
    }
}

impl WaitView {
    /// What is left to wait for after an event: the end of a task that is waited for is taken in.
    pub open spec fn after(self, event: CoordinatorEvent) -> WaitView {
        match event {
            CoordinatorEvent::Exited(exit) => if self.pending.contains(exit.task_id@) {
                WaitView {
                    pending: self.pending.remove(exit.task_id@),
                    exits: self.exits.push(exit),
                    ..self
                }
            } else {
                self
            },
            _ => self,
        }
    }

    /// What the client is told of an event: all that happens to the tasks that are waited for,
    /// and each failure of a worker.
    pub open spec fn tells(self, event: CoordinatorEvent) -> Option<ClientResponse> {
        match event {
            CoordinatorEvent::Started(start) => if self.pending.contains(start.task_id@) {
                Some(ClientResponse::TaskStarted(start))
            } else {
                None
            },
            CoordinatorEvent::Log(line) => if self.pending.contains(line.task_id@) {
                Some(ClientResponse::LogLine(line))
            } else {
                None
            },
            CoordinatorEvent::Exited(exit) => if self.pending.contains(exit.task_id@) {
                Some(ClientResponse::TaskExited(exit))
            } else {
                None
            },
            CoordinatorEvent::Error(error) => Some(ClientResponse::Error(error.message)),
        }
    }

    /// Whether a task has ended.
    pub open spec fn has_ended(self, task_id: Seq<char>) -> bool {
        exists|i: int| 0 <= i < self.exits.len() && (#[trigger] self.exits[i]).task_id@ == task_id
    }

    /// Whether each of the tasks is either waited for or has ended once.
    pub open spec fn accounts_for(self, tasks: Set<Seq<char>>) -> bool {
        &&& forall|task_id: Seq<char>| #[trigger]
            tasks.contains(task_id) == (self.pending.contains(task_id) || self.has_ended(task_id))
        &&& forall|task_id: Seq<char>| #[trigger]
            self.pending.contains(task_id) ==> !self.has_ended(task_id)
        &&& forall|i: int, j: int|
            0 <= i < j < self.exits.len() ==> (#[trigger] self.exits[i]).task_id@ != (
            #[trigger] self.exits[j]).task_id@
    }
}

/// The identifiers of the tasks of a run.
pub open spec fn task_ids(tasks: Seq<TaskAssignment>) -> Set<Seq<char>> {
    tasks.map_values(|task: TaskAssignment| task.task_id@).to_set()
}

/// Whether every task ended well.
pub open spec fn all_succeeded(exits: Seq<TaskExited>) -> bool {
    forall|i: int| 0 <= i < exits.len() ==> (#[trigger] exits[i]).success
}

impl JobWait {
    /// Waits for the tasks of a run.
    pub fn new(job_id: JobId, tasks: &Vec<TaskAssignment>) -> (r: Self)
        ensures
            r@ == (WaitView { job_id, pending: task_ids(tasks@), exits: Seq::empty() }),
            r@.accounts_for(task_ids(tasks@)),
    {
        let mut pending: Table<()> = Table::new();
        let ghost names = tasks@.map_values(|task: TaskAssignment| task.task_id@);
        proof {
            assert(pending@.dom() =~= names.take(0).to_set());
        }
        for i in 0..tasks.len()
            invariant
                names == tasks@.map_values(|task: TaskAssignment| task.task_id@),
                pending@.dom() == names.take(i as int).to_set(),
        {
            pending.insert(tasks[i].task_id.to_string(), ());
            proof {
                let so_far = names.take(i as int);
                let next = names.take(i + 1);
                assert(next =~= so_far.push(tasks@[i as int].task_id@));
                assert forall|name: Seq<char>| #[trigger] next.to_set().contains(name)
                    == so_far.to_set().insert(tasks@[i as int].task_id@).contains(name) by {
                    if so_far.contains(name) {
                        assert(next[so_far.index_of(name)] == name);
                    }
                    assert(next[i as int] == tasks@[i as int].task_id@);
                }
                assert(pending@.dom() =~= next.to_set());
            }
        }
        proof {
            assert(names.take(tasks.len() as int) =~= names);
        }
        JobWait { job_id, pending, exits: Vec::new() }
    }

    /// Whether there is nothing left to wait for.
    pub fn is_done(&self) -> (r: bool)
        ensures
            r <==> self@.pending == Set::<Seq<char>>::empty(),
    {
        let n = self.pending.len();
        proof {
            let keys = self.pending.keys();
            if n == 0 {
                assert(keys =~= Seq::empty());
                assert(keys.to_set() =~= Set::empty());
            } else {
                assert(keys.to_set().contains(keys[0]));
            }
        }
        n == 0
    }

    /// Takes an event in and says what the client is told of it.
    pub fn on_event(&mut self, event: CoordinatorEvent) -> (r: Option<ClientResponse>)
        ensures
            final(self)@ == old(self)@.after(event),
            r == old(self)@.tells(event),
    {
        match event {
            CoordinatorEvent::Started(start) => if self.pending.contains_key(
                start.task_id.as_str(),
            ) {
                Some(ClientResponse::TaskStarted(start))
            } else {
                None
            },
            CoordinatorEvent::Log(line) => if self.pending.contains_key(line.task_id.as_str()) {
                Some(ClientResponse::LogLine(line))
            } else {
                None
            },
            CoordinatorEvent::Exited(exit) => {
                if self.pending.remove(exit.task_id.as_str()).is_some() {
                    self.exits.push(exit.clone());
                    Some(ClientResponse::TaskExited(exit))
                } else {
                    proof {
                        assert(self@.pending =~= old(self)@.pending);
                    }
                    None
                }
            },
            CoordinatorEvent::Error(error) => Some(ClientResponse::Error(error.message)),
        }
    }

    /// How the job has ended: well if every task that ended did.
    pub fn finish(self) -> (r: JobFinished)
        ensures
            r.job_id == self@.job_id,
            r.success <==> all_succeeded(self@.exits),
            r.success == (forall|i: int|
                0 <= i < r.exits@.len() ==> (#[trigger] r.exits@[i]).success),
            r.exits@ == self@.exits,
            r.exits == self.exits,
    {
        let JobWait { job_id, pending: _, exits } = self;
        let mut success = true;
        for i in 0..exits.len()
            invariant
                success <==> all_succeeded(exits@.take(i as int)),
        {
            proof {
                let next = exits@.take(i + 1);
                assert forall|k: int| 0 <= k < i implies next[k] == #[trigger] exits@.take(
                    i as int,
                )[k] by {}
                assert(next[i as int] == exits@[i as int]);
                if all_succeeded(next) {
                    assert forall|k: int| 0 <= k < i implies (#[trigger] exits@.take(
                        i as int,
                    )[k]).success by {
                        assert(next[k].success);
                    }
                }
            }
            if !exits[i].success {
                success = false;
            }
        }
        proof {
            assert(exits@.take(exits.len() as int) =~= exits@);
        }
        JobFinished { job_id, success, exits }
    }
}

/// An event leaves each task of a run either waited for or ended once.
pub proof fn law_events_account_for_tasks(
    wait: WaitView,
    event: CoordinatorEvent,
    tasks: Set<Seq<char>>,
)
    requires
        wait.accounts_for(tasks),
    ensures
        wait.after(event).accounts_for(tasks),
        wait.after(event).job_id == wait.job_id,
{
    let after = wait.after(event);
    match event {
        CoordinatorEvent::Exited(exit) => {
            if wait.pending.contains(exit.task_id@) {
                let n = wait.exits.len() as int;
                assert(after.exits[n] == exit);
                assert(!wait.has_ended(exit.task_id@));
                assert forall|task_id: Seq<char>| #[trigger]
                    after.has_ended(task_id) == (wait.has_ended(task_id) || task_id
                        == exit.task_id@) by {
                    if wait.has_ended(task_id) {
                        let i = choose|i: int|
                            0 <= i < wait.exits.len() && (#[trigger] wait.exits[i]).task_id@
                                == task_id;
                        assert(after.exits[i] == wait.exits[i]);
                    }
                    if after.has_ended(task_id) {
                        let i = choose|i: int|
                            0 <= i < after.exits.len() && (#[trigger] after.exits[i]).task_id@
                                == task_id;
                        if i < n {
                            assert(wait.exits[i] == after.exits[i]);
                        }
                    }
                    if task_id == exit.task_id@ {
                        assert(after.exits[n].task_id@ == task_id);
                    }
                }
                assert forall|i: int, j: int| 0 <= i < j < after.exits.len() implies (
                #[trigger] after.exits[i]).task_id@ != (#[trigger] after.exits[j]).task_id@ by {
                    assert(after.exits[i] == wait.exits[i]);
                    if j == n {
                        if after.exits[i].task_id@ == exit.task_id@ {
                            assert(wait.has_ended(exit.task_id@));
                        }
                    } else {
                        assert(after.exits[j] == wait.exits[j]);
                    }
                }
            }
        },
        _ => {},
    }
}

/// The ends that a run has heard of stay, whatever comes after.
pub proof fn law_ends_are_kept(wait: WaitView, event: CoordinatorEvent)
    ensures
        wait.exits.is_prefix_of(wait.after(event).exits),
        !all_succeeded(wait.exits) ==> !all_succeeded(wait.after(event).exits),
{
    let after = wait.after(event).exits;
    if !all_succeeded(wait.exits) {
        let i = choose|i: int| 0 <= i < wait.exits.len() && !(#[trigger] wait.exits[i]).success;
        assert(after[i] == wait.exits[i]);
    }
}

/// A worker's failure that is about a running task, as where its policy refuses the task, ends
/// the task for the run that waits for it, and the run does not end well.
pub proof fn law_failed_task_fails_its_run(
    state: StateView,
    wait: WaitView,
    error: WorkerError,
    now: Timestamp,
)
    requires
        error.node_id is Some,
        error.task_id is Some,
        state.runs(error.node_id->0@, error.task_id->0@),
        wait.pending.contains(error.task_id->0@),
    ensures
        ({
            let exit = state.error_exit(error, now)->0;
            let event = CoordinatorEvent::Exited(exit);
            &&& state.effects_of(WorkerMessage::Error(error), now).contains(Effect::Publish(event))
            &&& !wait.after(event).pending.contains(error.task_id->0@)
            &&& !all_succeeded(wait.after(event).exits)
        }),
{
    let exit = state.error_exit(error, now)->0;
    let event = CoordinatorEvent::Exited(exit);
    let effects = state.effects_of(WorkerMessage::Error(error), now);
    assert(effects[1] == Effect::Publish(event));
    let exits = wait.after(event).exits;
    assert(exits[exits.len() - 1] == exit);
}

/// A lost task ends for the run that waits for it, and the run does not end well.
pub proof fn law_lost_task_fails_its_run(
    wait: WaitView,
    line: LogLine,
    exit: TaskExited,
    node_id: Seq<char>,
    task_id: Seq<char>,
    job_id: JobId,
    reason: Seq<char>,
)
    requires
        is_loss(line, exit, node_id, task_id, job_id, reason),
        wait.pending.contains(task_id),
    ensures
        ({
            let told = wait.after(CoordinatorEvent::Log(line));
            let after = told.after(CoordinatorEvent::Exited(exit));
            &&& wait.tells(CoordinatorEvent::Log(line)) == Some(ClientResponse::LogLine(line))
            &&& told.tells(CoordinatorEvent::Exited(exit)) == Some(ClientResponse::TaskExited(exit))
            &&& !after.pending.contains(task_id)
            &&& !all_succeeded(after.exits)
        }),
{
    let after = wait.after(CoordinatorEvent::Log(line)).after(CoordinatorEvent::Exited(exit));
    assert(after.exits[after.exits.len() - 1] == exit);
}

/// Once nothing is waited for, every task of the run has ended, and no other task has.
pub proof fn law_finished_run_has_all_ends(wait: WaitView, tasks: Set<Seq<char>>)
    requires
        wait.accounts_for(tasks),
        wait.pending == Set::<Seq<char>>::empty(),
    ensures
        forall|task_id: Seq<char>| tasks.contains(task_id) == #[trigger] wait.has_ended(task_id),
{
    assert forall|task_id: Seq<char>| tasks.contains(task_id) == #[trigger] wait.has_ended(
        task_id,
    ) by {
        assert(!wait.pending.contains(task_id));
    }
}

/// A run that names a lease gets tasks only on nodes of the lease.
pub proof fn law_leased_run_stays_on_lease(
    state: CoordinatorState,
    request: RunProcessRequest,
    node_id: Seq<char>,
)
    requires
        state@.run_refusal(request) is None,
        request.lease_id is Some,
        state@.well_formed(),
        state.run_choice(request).contains(node_id),
    ensures
        state@.lease_of(request) is Some,
        holds_node(state@.lease_of(request)->0.nodes@, node_id),
{
    let lease = state@.lease_of(request)->0;
    let choice = state.run_choice(request);
    let i = choose|i: int| 0 <= i < choice.len() && choice[i] == node_id;
    assert(ids(lease.nodes@).len() == lease.nodes@.len());
    if request.nodes@.len() > 0 {
        assert(ids(request.nodes@).len() == request.nodes@.len());
        assert(choice[i] == request.nodes@[i]@);
    } else {
        assert(choice[i] == lease.nodes@[i]@);
    }
}

/// A list of ends counts as a success exactly if each end in it is one, whatever the exit codes.
pub proof fn law_success_is_that_of_every_end(exits: Seq<TaskExited>)
    ensures
        all_succeeded(exits) == (forall|i: int|
            0 <= i < exits.len() ==> (#[trigger] exits[i]).success),
{
}

impl WaitView {
    /// What is left to wait for after events.
    pub open spec fn after_all(self, events: Seq<CoordinatorEvent>) -> WaitView
        decreases events.len(),
    {
        if events.len() == 0 {
            self
        } else {
            self.after_all(events.drop_last()).after(events.last())
        }
    }
}

/// Whether the event at a place is the end of a task.
pub open spec fn ends_at(events: Seq<CoordinatorEvent>, i: int, task_id: Seq<char>) -> bool {
    0 <= i < events.len() && (events[i] matches CoordinatorEvent::Exited(exit) && exit.task_id@
        == task_id)
}

/// Whether the event at a place is the first end of a task.
pub open spec fn first_ends_at(events: Seq<CoordinatorEvent>, i: int, task_id: Seq<char>) -> bool {
    ends_at(events, i, task_id) && forall|k: int| 0 <= k < i ==> !#[trigger] ends_at(
        events,
        k,
        task_id,
    )
}

/// A run waits for those of its tasks that no event has ended yet. What it has taken in of the
/// others is the first end of each, and nothing of tasks that are not its own.
pub proof fn law_run_takes_in_the_first_end_of_each_task(
    wait: WaitView,
    events: Seq<CoordinatorEvent>,
    task_id: Seq<char>,
)
    requires
        wait.exits.len() == 0,
    ensures
        ({
            let after = wait.after_all(events);
            &&& after.job_id == wait.job_id
            &&& after.pending.contains(task_id) <==> wait.pending.contains(task_id) && forall|
                i: int,
            |
                !#[trigger] ends_at(events, i, task_id)
            &&& forall|k: int|
                0 <= k < after.exits.len() && (#[trigger] after.exits[k]).task_id@ == task_id ==> {
                    &&& wait.pending.contains(task_id)
                    &&& exists|i: int| #[trigger]
                        first_ends_at(events, i, task_id) && events[i] == CoordinatorEvent::Exited(
                            after.exits[k],
                        )
                }
            &&& wait.pending.contains(task_id) && (exists|i: int| #[trigger]
                ends_at(events, i, task_id)) ==> exists|k: int|
                0 <= k < after.exits.len() && (#[trigger] after.exits[k]).task_id@ == task_id
        }),
    decreases events.len(),
{
    if events.len() > 0 {
        let fewer = events.drop_last();
        let n = fewer.len() as int;
        let before = wait.after_all(fewer);
        let after = wait.after_all(events);
        let last = events[n];
        law_run_takes_in_the_first_end_of_each_task(wait, fewer, task_id);
        assert(after == before.after(last));
        assert forall|i: int| i < n implies #[trigger] ends_at(events, i, task_id) == ends_at(
            fewer,
            i,
            task_id,
        ) by {}
        assert forall|i: int| i < n implies #[trigger] first_ends_at(events, i, task_id)
            == first_ends_at(fewer, i, task_id) by {
            assert(ends_at(events, i, task_id) == ends_at(fewer, i, task_id));
            if first_ends_at(events, i, task_id) {
                assert forall|k: int| 0 <= k < i implies !#[trigger] ends_at(
                    fewer,
                    k,
                    task_id,
                ) by {
                    assert(!ends_at(events, k, task_id));
                }
            }
            if first_ends_at(fewer, i, task_id) {
                assert forall|k: int| 0 <= k < i implies !#[trigger] ends_at(
                    events,
                    k,
                    task_id,
                ) by {
                    assert(!ends_at(fewer, k, task_id));
                }
            }
        }
        if before.pending.contains(task_id) && ends_at(events, n, task_id) {
            assert forall|k: int| 0 <= k < n implies !#[trigger] ends_at(
                events,
                k,
                task_id,
            ) by {
                assert(!ends_at(fewer, k, task_id));
            }
            assert(first_ends_at(events, n, task_id));
            assert(after.exits[before.exits.len() as int].task_id@ == task_id);
        }
        assert forall|k: int|
            0 <= k < after.exits.len() && (#[trigger] after.exits[k]).task_id@
                == task_id implies wait.pending.contains(task_id) && exists|i: int| #[trigger]
            first_ends_at(events, i, task_id) && events[i] == CoordinatorEvent::Exited(
                after.exits[k],
            ) by {
            if k < before.exits.len() {
                assert(before.exits[k] == after.exits[k]);
                let i = choose|i: int| #[trigger]
                    first_ends_at(fewer, i, task_id) && fewer[i] == CoordinatorEvent::Exited(
                        before.exits[k],
                    );
                assert(ends_at(fewer, i, task_id));
                assert(first_ends_at(events, i, task_id));
                assert(events[i] == fewer[i]);
            } else {
                assert(ends_at(events, n, task_id));
                assert(first_ends_at(events, n, task_id));
            }
        }
        if wait.pending.contains(task_id) && exists|i: int| #[trigger]
            ends_at(events, i, task_id) {
            let i = choose|i: int| #[trigger] ends_at(events, i, task_id);
            if i < n {
                assert(ends_at(fewer, i, task_id));
                let k = choose|k: int|
                    0 <= k < before.exits.len() && (#[trigger] before.exits[k]).task_id@ == task_id;
                assert(after.exits[k] == before.exits[k]);
            } else if !before.pending.contains(task_id) {
                let j = choose|j: int| #[trigger] ends_at(fewer, j, task_id);
                let k = choose|k: int|
                    0 <= k < before.exits.len() && (#[trigger] before.exits[k]).task_id@ == task_id;
                assert(after.exits[k] == before.exits[k]);
            }
        }
        if after.pending.contains(task_id) {
            assert forall|i: int| !#[trigger] ends_at(events, i, task_id) by {
                if i < n {
                    assert(!ends_at(fewer, i, task_id));
                }
            }
        }
        if wait.pending.contains(task_id) && forall|i: int| !#[trigger] ends_at(
            events,
            i,
            task_id,
        ) {
            assert forall|i: int| !#[trigger] ends_at(fewer, i, task_id) by {
                if 0 <= i < n {
                    assert(!ends_at(events, i, task_id));
                }
            }
            assert(!ends_at(events, n, task_id));
        }
    }
}

/// What a client that waits is told: what happens to tasks that are waited for, word for word,
/// nothing of other tasks, and every failure that a worker reports.
pub proof fn law_client_hears_of_its_tasks(wait: WaitView, event: CoordinatorEvent)
    ensures
        match event {
            CoordinatorEvent::Started(start) => {
                &&& wait.pending.contains(start.task_id@) ==> wait.tells(event) == Some(
                    ClientResponse::TaskStarted(start),
                )
                &&& !wait.pending.contains(start.task_id@) ==> wait.tells(event) is None
            },
            CoordinatorEvent::Log(line) => {
                &&& wait.pending.contains(line.task_id@) ==> wait.tells(event) == Some(
                    ClientResponse::LogLine(line),
                )
                &&& !wait.pending.contains(line.task_id@) ==> wait.tells(event) is None
            },
            CoordinatorEvent::Exited(exit) => {
                &&& wait.pending.contains(exit.task_id@) ==> wait.tells(event) == Some(
                    ClientResponse::TaskExited(exit),
                )
                &&& !wait.pending.contains(exit.task_id@) ==> wait.tells(event) is None
            },
            CoordinatorEvent::Error(error) => wait.tells(event) == Some(
                ClientResponse::Error(error.message),
            ),
        },
        !(event is Exited) ==> wait.after(event) == wait,
{
}

/// The environment of each task of a run: the node's own variables, and of the run's variables
/// those that the node's own do not name.
pub proof fn law_task_environment(
    state: CoordinatorState,
    request: RunProcessRequest,
    plan: RunPlan,
    i: int,
    name: Seq<char>,
)
    requires
        state.is_plan(request, plan),
        0 <= i < plan.orders@.len(),
    ensures
        ({
            let env = plan.orders@[i].spec.run.env@;
            let node_id = plan.orders@[i].spec.run.node_id@;
            let given = request.node_env@.contains_key(node_id)
                && request.node_env@[node_id]@.contains_key(name);
            &&& given ==> env.contains_key(name) && env[name] == request.node_env@[node_id]@[name]
            &&& !given && request.env@.contains_key(name) ==> env.contains_key(name) && env[name]
                == request.env@[name]
            &&& !given && !request.env@.contains_key(name) ==> !env.contains_key(name)
        }),
{
    assert(state@.is_order(request, plan.assignments@[i], plan.orders@[i]));
}

/// Each order of a run goes to the worker of the node that it names, for the task of that node,
/// and asks for what the request asks for, without any other limit.
pub proof fn law_orders_ask_for_what_is_requested(
    state: CoordinatorState,
    request: RunProcessRequest,
    plan: RunPlan,
    i: int,
)
    requires
        state.is_plan(request, plan),
        0 <= i < plan.orders@.len(),
    ensures
        ({
            let order = plan.orders@[i];
            let run = order.spec.run;
            &&& state@.nodes.contains_key(run.node_id@)
            &&& order.connection == state@.nodes[run.node_id@].connection
            &&& run.job_id == plan.job_id
            &&& run.task_id == plan.assignments@[i].task_id
            &&& run.node_id == plan.assignments@[i].node_id
            &&& run.argv@ == request.argv@
            &&& request.cwd matches Some(cwd) ==> run.cwd@ == cwd@
            &&& request.cwd is None ==> run.cwd@ == "."@
            &&& run.timeout == request.timeout
            &&& run.resources.cpu_cores is None
            &&& run.resources.memory_mb is None
            &&& run.resources.gpu_count is None
            &&& run.filesystem.workspace is None
            &&& run.filesystem.read_paths@.len() == 0
            &&& run.filesystem.write_paths@.len() == 0
            &&& run.network.mode == NetworkMode::Allow
            &&& run.devices.gpu && run.devices.infiniband
            &&& run.sandbox.profile@ == "none"@
            &&& run.secrets@.len() == 0
        }),
{
    let task = plan.assignments@[i];
    assert(state@.is_order(request, task, plan.orders@[i]));
    lemma_recorded_is_step(plan.steps@, i);
    let k = choose|k: int|
        0 <= k < plan.steps@.len() && (#[trigger] plan.steps@[k] matches RunStep::Record(t) && t
            == task);
    assert(state@.is_step(plan.job_id, state.run_choice(request)[k], plan.steps@[k]));
}

/// A task that steps record is that of one of them.
proof fn lemma_recorded_is_step(steps: Seq<RunStep>, i: int)
    requires
        0 <= i < recorded(steps).len(),
    ensures
        exists|k: int|
            0 <= k < steps.len() && (#[trigger] steps[k] matches RunStep::Record(task) && task
                == recorded(steps)[i]),
    decreases steps.len(),
{
    if steps.len() > 0 {
        let fewer = steps.drop_last();
        let n = steps.len() - 1;
        assert(steps[n] == steps.last());
        if i < recorded(fewer).len() {
            lemma_recorded_is_step(fewer, i);
            let k = choose|k: int|
                0 <= k < fewer.len() && (#[trigger] fewer[k] matches RunStep::Record(task) && task
                    == recorded(fewer)[i]);
            assert(steps[k] == fewer[k]);
            assert(recorded(steps)[i] == recorded(fewer)[i]);
        }
    }
}

/// The number of steps among the first `n` that record a task.
pub open spec fn records_before(steps: Seq<RunStep>, n: int) -> int
    decreases n,
{
    if n <= 0 {
        0
    } else if steps[n - 1] is Record {
        records_before(steps, n - 1) + 1
    } else {
        records_before(steps, n - 1)
    }
}

/// The tasks of a run are those that its steps record, each once and in the order of the steps.
pub proof fn law_tasks_are_those_of_the_steps(steps: Seq<RunStep>, i: int)
    requires
        0 <= i < steps.len(),
    ensures
        recorded(steps).len() == records_before(steps, steps.len() as int),
        steps[i] matches RunStep::Record(task) ==> 0 <= records_before(steps, i)
            < recorded(steps).len() && recorded(steps)[records_before(steps, i)] == task,
    decreases steps.len(),
{
    let fewer = steps.drop_last();
    let n = steps.len() - 1;
    lemma_records_before(steps, fewer, n);
    lemma_records_before(steps, fewer, i);
    assert(steps[n] == steps.last());
    assert(fewer.len() == 0 ==> recorded(fewer).len() == 0 && records_before(fewer, 0) == 0);
    if n > 0 {
        law_tasks_are_those_of_the_steps(fewer, if i < n { i } else { 0 });
    }
    if i < n {
        assert(steps[i] == fewer[i]);
    }
}

/// What the first steps record does not depend on the rest.
proof fn lemma_records_before(a: Seq<RunStep>, b: Seq<RunStep>, n: int)
    requires
        n <= a.len(),
        n <= b.len(),
        forall|k: int| 0 <= k < n ==> a[k] == b[k],
    ensures
        records_before(a, n) == records_before(b, n),
        records_before(a, n) >= 0,
    decreases n,
{
    if n > 0 {
        lemma_records_before(a, b, n - 1);
    }
}

/// Whether a step is what a run does for a node: it records a task of the run there if the node
/// is connected, and else says that it is not.
pub open spec fn serves(state: StateView, job_id: JobId, node_id: Seq<char>, step: RunStep) -> bool {
    &&& step is Record <==> state.nodes.contains_key(node_id)
    &&& step matches RunStep::Record(task) ==> task.node_id@ == node_id && task.job_id == job_id
    &&& step matches RunStep::NotConnected(absent) ==> absent@ == node_id
}

/// A run that names nodes serves each of them, in that order; one that names none serves those of
/// its lease; one that has no lease either serves each connected node.
pub proof fn law_run_goes_where_it_is_asked_to(
    state: CoordinatorState,
    request: RunProcessRequest,
    plan: RunPlan,
)
    requires
        state.is_plan(request, plan),
    ensures
        request.nodes@.len() > 0 ==> {
            &&& plan.steps@.len() == request.nodes@.len()
            &&& forall|i: int|
                0 <= i < request.nodes@.len() ==> serves(
                    state@,
                    plan.job_id,
                    request.nodes@[i]@,
                    #[trigger] plan.steps@[i],
                )
        },
        request.nodes@.len() == 0 && request.lease_id is Some && state@.leases.contains_key(
            request.lease_id->0@,
        ) && state@.leases[request.lease_id->0@].nodes@.len() > 0 ==> {
            let nodes = state@.leases[request.lease_id->0@].nodes@;
            &&& plan.steps@.len() == nodes.len()
            &&& forall|i: int|
                0 <= i < nodes.len() ==> serves(
                    state@,
                    plan.job_id,
                    nodes[i]@,
                    #[trigger] plan.steps@[i],
                )
        },
        request.nodes@.len() == 0 && request.lease_id is None ==> {
            &&& plan.steps@.len() == state.nodes.keys().len()
            &&& forall|i: int| 0 <= i < plan.steps@.len() ==> #[trigger] plan.steps@[i] is Record
            &&& forall|node_id: Seq<char>| #[trigger]
                state@.nodes.contains_key(node_id) ==> exists|i: int|
                    0 <= i < plan.steps@.len() && serves(
                        state@,
                        plan.job_id,
                        node_id,
                        #[trigger] plan.steps@[i],
                    )
        },
        plan.wait == request.wait,
        plan.orders@.len() == plan.assignments@.len(),
        plan.assignments@ == recorded(plan.steps@),
{
    let choice = state.run_choice(request);
    assert forall|i: int| 0 <= i < choice.len() implies serves(
        state@,
        plan.job_id,
        choice[i],
        #[trigger] plan.steps@[i],
    ) by {
        assert(state@.is_step(plan.job_id, choice[i], plan.steps@[i]));
    }
    if request.nodes@.len() > 0 {
        assert(ids(request.nodes@).len() == request.nodes@.len());
        assert forall|i: int| 0 <= i < request.nodes@.len() implies serves(
            state@,
            plan.job_id,
            request.nodes@[i]@,
            #[trigger] plan.steps@[i],
        ) by {
            assert(choice[i] == request.nodes@[i]@);
        }
    } else if request.lease_id is Some {
        if state@.leases.contains_key(request.lease_id->0@) {
            let nodes = state@.leases[request.lease_id->0@].nodes@;
            assert(ids(nodes).len() == nodes.len());
            if nodes.len() > 0 {
                assert forall|i: int| 0 <= i < nodes.len() implies serves(
                    state@,
                    plan.job_id,
                    nodes[i]@,
                    #[trigger] plan.steps@[i],
                ) by {
                    assert(choice[i] == nodes[i]@);
                }
            }
        }
    } else {
        let keys = state.nodes.keys();
        assert(choice == keys);
        assert forall|i: int| 0 <= i < plan.steps@.len() implies #[trigger] plan.steps@[i]
            is Record by {
            assert(keys.contains(keys[i]));
            assert(state@.nodes.contains_key(choice[i]));
        }
        assert forall|node_id: Seq<char>| #[trigger]
            state@.nodes.contains_key(node_id) implies exists|i: int|
            0 <= i < plan.steps@.len() && serves(
                state@,
                plan.job_id,
                node_id,
                #[trigger] plan.steps@[i],
            ) by {
            assert(keys.contains(node_id));
            let i = keys.index_of(node_id);
            assert(serves(state@, plan.job_id, choice[i], plan.steps@[i]));
        }
    }
}

/// Whether a node is in a list, at whatever place.
pub open spec fn is_in(node_id: Seq<char>, nodes: Seq<NodeId>) -> bool {
    exists|j: int| 0 <= j < nodes.len() && (#[trigger] nodes[j])@ == node_id
}

/// A run is refused exactly if it has no command, or names a lease that is not active, or names a
/// node that is not, at any place, among the nodes of its lease.
pub proof fn law_run_is_refused_exactly_if(state: StateView, request: RunProcessRequest)
    ensures
        request.argv@.len() == 0 ==> state.run_refusal(request) == Some(RunRefusal::EmptyCommand),
        request.argv@.len() > 0 && request.lease_id is None ==> state.run_refusal(request) is None,
        request.argv@.len() > 0 && request.lease_id is Some && !state.leases.contains_key(
            request.lease_id->0@,
        ) ==> state.run_refusal(request) == Some(RunRefusal::NoLease(request.lease_id->0)),
        request.argv@.len() > 0 && request.lease_id is Some && state.leases.contains_key(
            request.lease_id->0@,
        ) ==> {
            let held = state.leases[request.lease_id->0@].nodes@;
            let inside = forall|i: int|
                0 <= i < request.nodes@.len() ==> is_in((#[trigger] request.nodes@[i])@, held);
            &&& inside ==> state.run_refusal(request) is None
            &&& !inside ==> state.run_refusal(request) == Some(
                RunRefusal::OutsideLease(request.lease_id->0),
            )
        },
{
    if request.lease_id is Some && state.leases.contains_key(request.lease_id->0@) {
        let held = state.leases[request.lease_id->0@].nodes@;
        assert forall|i: int| 0 <= i < request.nodes@.len() implies holds_node(
            held,
            (#[trigger] request.nodes@[i])@,
        ) == is_in(request.nodes@[i]@, held) by {}
    }
}

/// A run waits for exactly the tasks that it was given.
pub proof fn law_run_waits_for_its_tasks(tasks: Seq<TaskAssignment>, task_id: Seq<char>)
    ensures
        task_ids(tasks).contains(task_id) <==> exists|i: int|
            0 <= i < tasks.len() && (#[trigger] tasks[i]).task_id@ == task_id,
{
    let names = tasks.map_values(|task: TaskAssignment| task.task_id@);
    if task_ids(tasks).contains(task_id) {
        let i = names.index_of(task_id);
        assert(tasks[i].task_id@ == task_id);
    }
    if exists|i: int| 0 <= i < tasks.len() && (#[trigger] tasks[i]).task_id@ == task_id {
        let i = choose|i: int| 0 <= i < tasks.len() && (#[trigger] tasks[i]).task_id@ == task_id;
        assert(names[i] == task_id);
    }
}

/// What is said of a waiting run is what it holds.
pub proof fn law_wait_says_what_it_holds(wait: JobWait, task_id: Seq<char>)
    ensures
        wait@.job_id == wait.job_id,
        wait@.pending.contains(task_id) <==> wait.pending@.contains_key(task_id),
        wait@.exits == wait.exits@,
{
}

/// Each refusal of a run is told in its own words.
pub proof fn law_refusal_of_a_run_is_told(refusal: RunRefusal)
    ensures
        match refusal {
            RunRefusal::EmptyCommand => refusal.text() == "run argv cannot be empty"@,
            RunRefusal::NoLease(lease_id) => refusal.text() == "lease "@ + lease_id@
                + " was not found"@,
            RunRefusal::OutsideLease(lease_id) => refusal.text()
                == "run nodes must be a subset of lease "@ + lease_id@,
        },
{
}

/// The tasks of a run have fresh identifiers: the word `task`, an underscore and thirty-two
/// lower-case hexadecimal digits.
pub proof fn law_tasks_have_fresh_identifiers(tasks: Seq<TaskAssignment>, i: int, j: int)
    requires
        are_fresh(tasks),
        0 <= i < tasks.len(),
    ensures
        tasks[i].task_id@.len() == 37,
        tasks[i].task_id@.take(4) == "task"@,
        tasks[i].task_id@[4] == '_',
        5 <= j < 37 ==> ('0' <= tasks[i].task_id@[j] && tasks[i].task_id@[j] <= '9') || ('a'
            <= tasks[i].task_id@[j] && tasks[i].task_id@[j] <= 'f'),
{
    reveal_strlit("task");
    crate::ids::law_fresh_identifier(tasks[i].task_id@, "task"@, j);
}

} // verus!
