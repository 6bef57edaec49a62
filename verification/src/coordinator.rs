//! What the coordinator keeps of connected workers and leases, and how it decides.
//!
//! The state changes by the functions here; connections, channels and the database are the
//! caller's. A worker's connection is known here by a number.
use vstd::prelude::*;

use crate::ids::{JobId, LeaseId, NodeId, TaskId};
use crate::jobstore::SqliteJobStore;
use crate::protocol::{
    copy_texts, CoordinatorMessage, LogLine, LogStream, NodeInfo, NodeSummary, TaskExited, TaskStarted, WorkerError,
    WorkerMessage,
};
use crate::table::Table;
use crate::time::Timestamp;

verus! {

/// A connected worker: what it said of itself, its connection, when it was last heard of, and
/// the jobs of the tasks that run on it.
#[derive(Debug)]
pub struct WorkerHandle {
    pub info: NodeInfo,
    pub connection: u64,
    pub last_seen: Timestamp,
    pub running_tasks: Table<JobId>,
}

/// What a `WorkerHandle` says.
#[verifier::ext_equal]
pub struct WorkerView {
    pub info: NodeInfo,
    pub connection: u64,
    pub last_seen: Timestamp,
    pub running: Map<Seq<char>, JobId>,
}

impl View for WorkerHandle {
    type V = WorkerView;

    open spec fn view(&self) -> WorkerView {
        WorkerView {
            info: self.info,
            connection: self.connection,
            last_seen: self.last_seen,
            running: self.running_tasks@,
        }
    }
}

/// A reservation of nodes.
#[derive(Debug)]
pub struct LeaseRecord {
    pub lease_id: LeaseId,
    pub nodes: Vec<NodeId>,
    pub gpus_per_node: Option<u32>,
    pub exclusive: bool,
    pub created_at: Timestamp,
}

/// The connected workers by node and the active leases by identifier.
#[derive(Debug)]
pub struct CoordinatorState {
    pub nodes: Table<WorkerHandle>,
    pub leases: Table<LeaseRecord>,
}

/// What a `CoordinatorState` says.
#[verifier::ext_equal]
pub struct StateView {
    pub nodes: Map<Seq<char>, WorkerView>,
    pub leases: Map<Seq<char>, LeaseRecord>,
}

/// What each handle of a table of workers says.
pub open spec fn worker_views(nodes: Map<Seq<char>, WorkerHandle>) -> Map<Seq<char>, WorkerView> {
    nodes.map_values(|node: WorkerHandle| node@)
}

impl View for CoordinatorState {
    type V = StateView;

    open spec fn view(&self) -> StateView {
        StateView { nodes: worker_views(self.nodes@), leases: self.leases@ }
    }
}

impl StateView {
    /// The state in which a worker has registered anew: nothing runs on it yet.
    pub open spec fn registered(self, info: NodeInfo, connection: u64, at: Timestamp) -> StateView {
        StateView {
            nodes: self.nodes.insert(
                info.node_id@,
                WorkerView { info, connection, last_seen: at, running: Map::empty() },
            ),
            ..self
        }
    }

    /// The state in which a node was heard of; a node that is not connected stays unknown.
    pub open spec fn heard_of(self, node_id: Seq<char>, at: Timestamp) -> StateView {
        if self.nodes.contains_key(node_id) {
            StateView {
                nodes: self.nodes.insert(
                    node_id,
                    WorkerView { last_seen: at, ..self.nodes[node_id] },
                ),
                ..self
            }
        } else {
            self
        }
    }

    /// The state in which a task of a job runs on a node; a node that is not connected stays
    /// unknown.
    pub open spec fn running(
        self,
        node_id: Seq<char>,
        task_id: Seq<char>,
        job_id: JobId,
    ) -> StateView {
        if self.nodes.contains_key(node_id) {
            let node = self.nodes[node_id];
            StateView {
                nodes: self.nodes.insert(
                    node_id,
                    WorkerView { running: node.running.insert(task_id, job_id), ..node },
                ),
                ..self
            }
        } else {
            self
        }
    }

    /// The state in which a task no longer runs on a node.
    pub open spec fn not_running(self, node_id: Seq<char>, task_id: Seq<char>) -> StateView {
        if self.nodes.contains_key(node_id) {
            let node = self.nodes[node_id];
            StateView {
                nodes: self.nodes.insert(
                    node_id,
                    WorkerView { running: node.running.remove(task_id), ..node },
                ),
                ..self
            }
        } else {
            self
        }
    }

    /// Whether a task runs on a node.
    pub open spec fn runs(self, node_id: Seq<char>, task_id: Seq<char>) -> bool {
        self.nodes.contains_key(node_id) && self.nodes[node_id].running.contains_key(task_id)
    }

    /// The state without a node.
    pub open spec fn without_node(self, node_id: Seq<char>) -> StateView {
        StateView { nodes: self.nodes.remove(node_id), ..self }
    }
}

/// What every run that waits for its tasks is told.
#[derive(Debug)]
pub enum CoordinatorEvent {
    Started(TaskStarted),
    Log(LogLine),
    Exited(TaskExited),
    Error(WorkerError),
}

impl Clone for CoordinatorEvent {
    fn clone(&self) -> (r: Self)
        ensures
            r == *self,
    {
        match self {
            CoordinatorEvent::Started(event) => CoordinatorEvent::Started(event.clone()),
            CoordinatorEvent::Log(line) => CoordinatorEvent::Log(line.clone()),
            CoordinatorEvent::Exited(event) => CoordinatorEvent::Exited(event.clone()),
            CoordinatorEvent::Error(error) => CoordinatorEvent::Error(error.clone()),
        }
    }
}

/// What is to be kept in the job store.
#[derive(Debug)]
pub enum StoreWrite {
    Started(TaskStarted),
    Log(LogLine),
    Exited(TaskExited),
}

impl StoreWrite {
    /// Keeps this in a store.
    pub fn keep(&self, store: &mut SqliteJobStore)
        ensures
            final(store)@ == (match *self {
                StoreWrite::Started(event) => old(store)@.started(event),
                StoreWrite::Log(line) => old(store)@.logged(line),
                StoreWrite::Exited(event) => old(store)@.exited(event),
            }),
    {
        match self {
            StoreWrite::Started(event) => store.record_task_started(event),
            StoreWrite::Log(line) => store.record_log_line(line),
            StoreWrite::Exited(event) => store.record_task_exited(event),
        }
    }
}

/// What is to be done after the state has changed, in the order given.
#[derive(Debug)]
pub enum Effect {
    Store(StoreWrite),
    Publish(CoordinatorEvent),
}

/// What a worker's message asks to be kept before anything else is done with it.
pub open spec fn first_write_of(message: WorkerMessage) -> Option<StoreWrite> {
    match message {
        WorkerMessage::TaskStarted(event) => Some(StoreWrite::Started(event)),
        WorkerMessage::LogLine(line) => Some(StoreWrite::Log(line)),
        WorkerMessage::TaskExited(event) => Some(StoreWrite::Exited(event)),
        _ => None,
    }
}

/// What a worker's message asks to be kept before anything else is done with it.
pub fn first_write(message: &WorkerMessage) -> (r: Option<StoreWrite>)
    ensures
        r == first_write_of(*message),
{
    match message {
        WorkerMessage::TaskStarted(event) => Some(StoreWrite::Started(event.clone())),
        WorkerMessage::LogLine(line) => Some(StoreWrite::Log(line.clone())),
        WorkerMessage::TaskExited(event) => Some(StoreWrite::Exited(event.clone())),
        _ => None,
    }
}

impl StateView {
    /// The end of the task that a worker's failure is about, if that task runs.
    pub open spec fn error_exit(self, error: WorkerError, now: Timestamp) -> Option<TaskExited> {
        match (error.node_id, error.task_id) {
            (Some(node_id), Some(task_id)) => if self.runs(node_id@, task_id@) {
                Some(
                    TaskExited {
                        job_id: self.nodes[node_id@].running[task_id@],
                        task_id,
                        node_id,
                        exit_code: None,
                        success: false,
                        timestamp: now,
                    },
                )
            } else {
                None
            },
            _ => None,
        }
    }

    /// The state after a worker's failure: the task that it is about no longer runs.
    pub open spec fn after_error(self, error: WorkerError) -> StateView {
        match (error.node_id, error.task_id) {
            (Some(node_id), Some(task_id)) => self.not_running(node_id@, task_id@),
            _ => self,
        }
    }

    /// The state after a worker's message.
    pub open spec fn after_message(self, message: WorkerMessage) -> StateView {
        match message {
            WorkerMessage::Heartbeat(beat) => self.heard_of(beat.node_id@, beat.timestamp),
            WorkerMessage::TaskStarted(event) => self.running(
                event.node_id@,
                event.task_id@,
                event.job_id,
            ),
            WorkerMessage::TaskExited(event) => self.not_running(event.node_id@, event.task_id@),
            WorkerMessage::Error(error) => self.after_error(error),
            WorkerMessage::LogLine(_) => self,
            WorkerMessage::Register(_) => self,
        }
    }

    /// What is to be done after a worker's message.
    pub open spec fn effects_of(self, message: WorkerMessage, now: Timestamp) -> Seq<Effect> {
        match message {
            WorkerMessage::TaskStarted(event) => seq![
                Effect::Publish(CoordinatorEvent::Started(event)),
            ],
            WorkerMessage::LogLine(line) => seq![Effect::Publish(CoordinatorEvent::Log(line))],
            WorkerMessage::TaskExited(event) => seq![
                Effect::Publish(CoordinatorEvent::Exited(event)),
            ],
            WorkerMessage::Error(error) => exit_effects(self.error_exit(error, now)).push(
                Effect::Publish(CoordinatorEvent::Error(error)),
            ),
            _ => seq![],
        }
    }
}

/// What is to be done where the coordinator itself declares a task ended.
pub open spec fn exit_effects(exit: Option<TaskExited>) -> Seq<Effect> {
    match exit {
        Some(event) => seq![
            Effect::Store(StoreWrite::Exited(event)),
            Effect::Publish(CoordinatorEvent::Exited(event)),
        ],
        None => seq![],
    }
}

impl CoordinatorState {
    /// No worker is connected and no lease is active.
    pub fn new() -> (r: Self)
        ensures
            r@ == (StateView { nodes: Map::empty(), leases: Map::empty() }),
            r@.well_formed(),
            r.nodes.keys().len() == 0,
            r.leases.keys().len() == 0,
    {
        let r = CoordinatorState { nodes: Table::new(), leases: Table::new() };
        proof {
            assert(r@.nodes =~= Map::empty());
        }
        r
    }

    /// Takes a worker in. One that registers again starts afresh.
    pub fn register(&mut self, info: NodeInfo, connection: u64, now: Timestamp)
        ensures
            final(self)@ == old(self)@.registered(info, connection, now),
    {
        let ghost before = self.nodes@;
        let key = info.node_id.to_string();
        let handle = WorkerHandle {
            info,
            connection,
            last_seen: now,
            running_tasks: Table::new(),
        };
        let ghost said = handle@;
        self.nodes.insert(key, handle);
        proof {
            assert(worker_views(self.nodes@) =~= worker_views(before).insert(key@, said));
        }
    }

    /// Keeps when a node was heard of.
    pub fn heartbeat(&mut self, node_id: &NodeId, at: Timestamp)
        ensures
            final(self)@ == old(self)@.heard_of(node_id@, at),
            final(self).nodes.keys() == old(self).nodes.keys(),
    {
        let ghost before = self.nodes@;
        match self.nodes.get_mut(node_id.as_str()) {
            Some(node) => {
                node.last_seen = at;
            },
            None => {},
        }
        proof {
            assert(self@.nodes =~= old(self)@.heard_of(node_id@, at).nodes);
        }
    }

    /// Keeps that a task of a job runs on a node.
    pub fn mark_running(&mut self, node_id: &NodeId, task_id: &TaskId, job_id: &JobId)
        ensures
            final(self)@ == old(self)@.running(node_id@, task_id@, *job_id),
            final(self).nodes.keys() == old(self).nodes.keys(),
    {
        match self.nodes.get_mut(node_id.as_str()) {
            Some(node) => {
                node.running_tasks.insert(task_id.to_string(), job_id.clone());
            },
            None => {},
        }
        proof {
            assert(self@.nodes =~= old(self)@.running(node_id@, task_id@, *job_id).nodes);
        }
    }

    /// Keeps that a task no longer runs on a node, and gives back its job if it did.
    pub fn unmark_running(&mut self, node_id: &NodeId, task_id: &TaskId) -> (r: Option<JobId>)
        ensures
            final(self)@ == old(self)@.not_running(node_id@, task_id@),
            final(self).nodes.keys() == old(self).nodes.keys(),
            r == (if old(self)@.runs(node_id@, task_id@) {
                Some(old(self)@.nodes[node_id@].running[task_id@])
            } else {
                None
            }),
    {
        let r = match self.nodes.get_mut(node_id.as_str()) {
            Some(node) => node.running_tasks.remove(task_id.as_str()),
            None => None,
        };
        proof {
            assert(self@.nodes =~= old(self)@.not_running(node_id@, task_id@).nodes);
        }
        r
    }

    /// Takes the task that a worker's failure is about as ended, if it runs.
    pub fn record_worker_error_exit(&mut self, error: &WorkerError, now: Timestamp) -> (r: Option<
        TaskExited,
    >)
        ensures
            final(self)@ == old(self)@.after_error(*error),
            final(self).nodes.keys() == old(self).nodes.keys(),
            r == old(self)@.error_exit(*error, now),
    {
        let node_id = match &error.node_id {
            Some(node_id) => node_id,
            None => {
                return None;
            },
        };
        let task_id = match &error.task_id {
            Some(task_id) => task_id,
            None => {
                return None;
            },
        };
        match self.unmark_running(node_id, task_id) {
            Some(job_id) => Some(
                TaskExited {
                    job_id,
                    task_id: task_id.clone(),
                    node_id: node_id.clone(),
                    exit_code: None,
                    success: false,
                    timestamp: now,
                },
            ),
            None => None,
        }
    }

    /// Takes a message of a registered worker in and says what is to be done.
    pub fn handle_worker_message(&mut self, message: WorkerMessage, now: Timestamp) -> (r: Vec<
        Effect,
    >)
        ensures
            final(self)@ == old(self)@.after_message(message),
            final(self).nodes.keys() == old(self).nodes.keys(),
            r@ == old(self)@.effects_of(message, now),
    {
        let mut effects: Vec<Effect> = Vec::new();
        match message {
            WorkerMessage::Heartbeat(beat) => {
                self.heartbeat(&beat.node_id, beat.timestamp);
            },
            WorkerMessage::TaskStarted(event) => {
                self.mark_running(&event.node_id, &event.task_id, &event.job_id);
                effects.push(Effect::Publish(CoordinatorEvent::Started(event)));
            },
            WorkerMessage::LogLine(line) => {
                effects.push(Effect::Publish(CoordinatorEvent::Log(line)));
            },
            WorkerMessage::TaskExited(event) => {
                self.unmark_running(&event.node_id, &event.task_id);
                effects.push(Effect::Publish(CoordinatorEvent::Exited(event)));
            },
            WorkerMessage::Error(error) => {
                match self.record_worker_error_exit(&error, now) {
                    Some(event) => {
                        effects.push(Effect::Store(StoreWrite::Exited(event.clone())));
                        effects.push(Effect::Publish(CoordinatorEvent::Exited(event)));
                    },
                    None => {},
                }
                effects.push(Effect::Publish(CoordinatorEvent::Error(error)));
            },
            WorkerMessage::Register(_) => {},
        }
        proof {
            assert(effects@ =~= old(self)@.effects_of(message, now));
        }
        effects
    }
}

/// Whether two events say that a task was lost with its node: a log line with the reason and the
/// task's failed end, at the same time.
pub open spec fn is_loss(
    line: LogLine,
    exit: TaskExited,
    node_id: Seq<char>,
    task_id: Seq<char>,
    job_id: JobId,
    reason: Seq<char>,
) -> bool {
    &&& line.job_id == job_id
    &&& line.task_id@ == task_id
    &&& line.node_id@ == node_id
    &&& line.stream == LogStream::System
    &&& line.line@ == reason
    &&& line.offset == 0
    &&& exit.job_id == job_id
    &&& exit.task_id@ == task_id
    &&& exit.node_id@ == node_id
    &&& exit.exit_code is None
    &&& !exit.success
    &&& exit.timestamp == line.timestamp
}

/// What is to be done where a task was lost.
pub open spec fn loss_effects(line: LogLine, exit: TaskExited) -> Seq<Effect> {
    seq![
        Effect::Store(StoreWrite::Log(line)),
        Effect::Publish(CoordinatorEvent::Log(line)),
        Effect::Store(StoreWrite::Exited(exit)),
        Effect::Publish(CoordinatorEvent::Exited(exit)),
    ]
}

/// The two events that say that a task was lost with its node at `now`.
pub fn lost_task(node_id: &NodeId, task_id: &str, job_id: &JobId, reason: &str, now: Timestamp) -> (r:
    (LogLine, TaskExited))
    ensures
        is_loss(r.0, r.1, node_id@, task_id@, *job_id, reason@),
        r.0.timestamp == now,
{
    let line = LogLine {
        job_id: job_id.clone(),
        task_id: TaskId(task_id.to_owned()),
        node_id: node_id.clone(),
        stream: LogStream::System,
        timestamp: now,
        line: reason.to_owned(),
        offset: 0,
    };
    let exit = TaskExited {
        job_id: job_id.clone(),
        task_id: TaskId(task_id.to_owned()),
        node_id: node_id.clone(),
        exit_code: None,
        success: false,
        timestamp: now,
    };
    (line, exit)
}

/// Whether effects say, task by task, that the tasks of a lost node were lost.
pub open spec fn tells_losses(
    effects: Seq<Effect>,
    node_id: Seq<char>,
    tasks: Seq<Seq<char>>,
    jobs: Map<Seq<char>, JobId>,
    reason: Seq<char>,
) -> bool {
    &&& effects.len() == 4 * tasks.len()
    &&& forall|k: int|
        #![trigger tasks[k]]
        0 <= k < tasks.len() ==> tells_loss(
            effects.subrange(4 * k, 4 * k + 4),
            node_id,
            tasks[k],
            jobs[tasks[k]],
            reason,
        )
}

/// Whether four effects say that a task was lost.
pub open spec fn tells_loss(
    effects: Seq<Effect>,
    node_id: Seq<char>,
    task_id: Seq<char>,
    job_id: JobId,
    reason: Seq<char>,
) -> bool {
    exists|line: LogLine, exit: TaskExited|
        #![trigger loss_effects(line, exit)]
        effects == loss_effects(line, exit) && is_loss(line, exit, node_id, task_id, job_id, reason)
}

impl CoordinatorState {
    /// The tasks that run on a node, in the order in which they came up.
    pub open spec fn tasks_on(self, node_id: Seq<char>) -> Seq<Seq<char>> {
        if self.nodes@.contains_key(node_id) {
            self.nodes@[node_id].running_tasks.keys()
        } else {
            Seq::empty()
        }
    }

    /// Takes a node out. Each task that ran on it is lost.
    pub fn mark_node_lost(&mut self, node_id: &NodeId, reason: &str) -> (r: Vec<Effect>)
        ensures
            final(self)@ == old(self)@.without_node(node_id@),
            tells_losses(
                r@,
                node_id@,
                old(self).tasks_on(node_id@),
                old(self)@.nodes[node_id@].running,
                reason@,
            ),
    {
        let removed = self.nodes.remove(node_id.as_str());
        proof {
            assert(self@.nodes =~= old(self)@.without_node(node_id@).nodes);
        }
        let mut effects: Vec<Effect> = Vec::new();
        match removed {
            Some(node) => {
                let n = node.running_tasks.len();
                let ghost tasks = node.running_tasks.keys();
                let ghost jobs = node.running_tasks@;
                for k in 0..n
                    invariant
                        n == tasks.len(),
                        tasks == node.running_tasks.keys(),
                        jobs == node.running_tasks@,
                        effects.len() == 4 * k,
                        forall|m: int|
                            #![trigger tasks[m]]
                            0 <= m < k ==> tells_loss(
                                effects@.subrange(4 * m, 4 * m + 4),
                                node_id@,
                                tasks[m],
                                jobs[tasks[m]],
                                reason@,
                            ),
                {
                    let ghost before = effects@;
                    let task_id = node.running_tasks.key_at(k);
                    let job_id = node.running_tasks.value_at(k);
                    let (line, exit) = lost_task(
                        node_id,
                        task_id.as_str(),
                        job_id,
                        reason,
                        Timestamp::now(),
                    );
                    let ghost told = loss_effects(line, exit);
                    effects.push(Effect::Store(StoreWrite::Log(line.clone())));
                    effects.push(Effect::Publish(CoordinatorEvent::Log(line)));
                    effects.push(Effect::Store(StoreWrite::Exited(exit.clone())));
                    effects.push(Effect::Publish(CoordinatorEvent::Exited(exit)));
                    proof {
                        assert forall|m: int|
                            #![trigger tasks[m]]
                            0 <= m < k + 1 implies tells_loss(
                            effects@.subrange(4 * m, 4 * m + 4),
                            node_id@,
                            tasks[m],
                            jobs[tasks[m]],
                            reason@,
                        ) by {
                            if m < k {
                                assert(effects@.subrange(4 * m, 4 * m + 4) =~= before.subrange(
                                    4 * m,
                                    4 * m + 4,
                                ));
                            } else {
                                assert(effects@.subrange(4 * m, 4 * m + 4) =~= told);
                            }
                        }
                    }
                }
            },
            None => {},
        }
        effects
    }

    /// What clients are told of the connected nodes.
    pub fn list_nodes(&self) -> (r: Vec<NodeSummary>)
        ensures
            r@.len() == self.nodes.keys().len(),
            forall|i: int|
                0 <= i < r@.len() ==> self@.nodes[self.nodes.keys()[i]].summed_up(#[trigger] r@[i]),
    {
        let n = self.nodes.len();
        let mut r: Vec<NodeSummary> = Vec::new();
        for i in 0..n
            invariant
                n == self.nodes.keys().len(),
                r@.len() == i,
                forall|k: int|
                    0 <= k < i ==> self@.nodes[self.nodes.keys()[k]].summed_up(#[trigger] r@[k]),
        {
            let node = self.nodes.value_at(i);
            r.push(node.summary());
        }
        r
    }
}

impl WorkerView {
    /// Whether a summary says what is known of the worker, as one that is online.
    pub open spec fn summed_up(self, s: NodeSummary) -> bool {
        &&& s.node_id == self.info.node_id
        &&& s.node_name == self.info.node_name
        &&& s.hostname == self.info.hostname
        &&& s.online
        &&& s.last_seen == self.last_seen
        &&& s.running_tasks == self.running.dom().len()
        &&& s.labels@ == self.info.labels@
    }
}

impl WorkerHandle {
    /// What clients are told of this worker.
    pub fn summary(&self) -> (r: NodeSummary)
        ensures
            self@.summed_up(r),
    {
        NodeSummary {
            node_id: self.info.node_id.clone(),
            node_name: self.info.node_name.clone(),
            hostname: self.info.hostname.clone(),
            online: true,
            last_seen: self.last_seen,
            running_tasks: self.running_tasks.len(),
            labels: copy_texts(&self.info.labels),
        }
    }
}

/// The order to a worker to end a task.
#[derive(Debug)]
pub struct KillOrder {
    pub connection: u64,
    pub task_id: TaskId,
}

impl KillOrder {
    /// What the worker is told.
    pub fn message(self) -> (r: CoordinatorMessage)
        ensures
            r == CoordinatorMessage::KillTask(self.task_id),
    {
        CoordinatorMessage::KillTask(self.task_id)
    }
}

/// The tasks that belong to a job, in order.
pub open spec fn tasks_of_job(
    tasks: Seq<Seq<char>>,
    jobs: Map<Seq<char>, JobId>,
    job_id: Seq<char>,
) -> Seq<Seq<char>> {
    tasks.filter(belongs_to(jobs, job_id))
}

/// Whether a task belongs to a job.
pub open spec fn belongs_to(jobs: Map<Seq<char>, JobId>, job_id: Seq<char>) -> spec_fn(
    Seq<char>,
) -> bool {
    |task_id: Seq<char>| jobs[task_id]@ == job_id
}

impl CoordinatorState {
    /// The tasks of a job that run on the node at a position.
    pub open spec fn killed_on(self, i: int, job_id: Seq<char>) -> Seq<Seq<char>> {
        let node = self.nodes@[self.nodes.keys()[i]];
        tasks_of_job(node.running_tasks.keys(), node.running_tasks@, job_id)
    }

    /// The orders that end the tasks of a job on the first `n` nodes: connection and task.
    pub open spec fn kills(self, n: int, job_id: Seq<char>) -> Seq<(u64, Seq<char>)>
        decreases n,
    {
        if n <= 0 {
            Seq::empty()
        } else {
            let connection = self.nodes@[self.nodes.keys()[n - 1]].connection;
            self.kills(n - 1, job_id) + self.killed_on(n - 1, job_id).map_values(
                |task_id: Seq<char>| (connection, task_id),
            )
        }
    }

    /// The orders that end the tasks of a job, node by node.
    pub fn kill_job(&self, job_id: &JobId) -> (r: Vec<KillOrder>)
        ensures
            orders(r@) == self.kills(self.nodes.keys().len() as int, job_id@),
    {
        let n = self.nodes.len();
        let mut r: Vec<KillOrder> = Vec::new();
        proof {
            assert(orders(r@) =~= self.kills(0, job_id@));
        }
        for i in 0..n
            invariant
                n == self.nodes.keys().len(),
                orders(r@) == self.kills(i as int, job_id@),
        {
            let node = self.nodes.value_at(i);
            node.add_kills(job_id, &mut r);
        }
        r
    }
}

/// What orders say: connection and task.
pub open spec fn orders(list: Seq<KillOrder>) -> Seq<(u64, Seq<char>)> {
    list.map_values(|order: KillOrder| (order.connection, order.task_id@))
}

impl WorkerHandle {
    /// Adds the orders that end the tasks of a job on this worker.
    fn add_kills(&self, job_id: &JobId, list: &mut Vec<KillOrder>)
        ensures
            orders(final(list)@) == orders(old(list)@) + tasks_of_job(
                self.running_tasks.keys(),
                self.running_tasks@,
                job_id@,
            ).map_values(|task_id: Seq<char>| (self.connection, task_id)),
    {
        let n = self.running_tasks.len();
        let ghost tasks = self.running_tasks.keys();
        let ghost jobs = self.running_tasks@;
        let ghost pair = |task_id: Seq<char>| (self.connection, task_id);
        let ghost before = orders(list@);
        proof {
            reveal(Seq::filter);
            assert(tasks.take(0) =~= Seq::empty());
            assert(before + tasks_of_job(tasks.take(0), jobs, job_id@).map_values(pair) =~= before);
        }
        for i in 0..n
            invariant
                n == tasks.len(),
                tasks == self.running_tasks.keys(),
                jobs == self.running_tasks@,
                pair == (|task_id: Seq<char>| (self.connection, task_id)),
                orders(list@) == before + tasks_of_job(
                    tasks.take(i as int),
                    jobs,
                    job_id@,
                ).map_values(pair),
        {
            let task_id = self.running_tasks.key_at(i);
            let ghost so_far = tasks_of_job(tasks.take(i as int), jobs, job_id@);
            let ghost listed = list@;
            proof {
                reveal(Seq::filter);
                assert(tasks.take(i + 1).drop_last() =~= tasks.take(i as int));
                assert(tasks.take(i + 1).last() == task_id@);
            }
            if self.running_tasks.value_at(i).is(job_id) {
                let order = KillOrder {
                    connection: self.connection,
                    task_id: TaskId(task_id.clone()),
                };
                let ghost said = (order.connection, order.task_id@);
                list.push(order);
                proof {
                    assert(orders(list@) =~= orders(listed).push(said));
                    assert(so_far.push(task_id@).map_values(pair) =~= so_far.map_values(pair).push(
                        said,
                    ));
                    assert((before + so_far.map_values(pair)).push(said) =~= before
                        + so_far.map_values(pair).push(said));
                }
            }
        }
        proof {
            assert(tasks.take(n as int) =~= tasks);
        }
    }
}

/// The identifiers of nodes.
pub open spec fn ids(nodes: Seq<NodeId>) -> Seq<Seq<char>> {
    nodes.map_values(|node: NodeId| node@)
}

/// Whether two lists of nodes have a node in common.
pub open spec fn overlap(a: Seq<NodeId>, b: Seq<NodeId>) -> bool {
    exists|i: int, j: int|
        0 <= i < a.len() && 0 <= j < b.len() && (#[trigger] a[i])@ == (#[trigger] b[j])@
}

impl StateView {
    /// Whether no exclusive lease shares a node with another lease.
    pub open spec fn leases_are_compatible(self) -> bool {
        forall|a: Seq<char>, b: Seq<char>|
            #![trigger self.leases[a], self.leases[b]]
            a != b && self.leases.contains_key(a) && self.leases.contains_key(b)
                && self.leases[a].exclusive ==> !overlap(
                self.leases[a].nodes@,
                self.leases[b].nodes@,
            )
    }

    /// Whether each worker is found under its node and each lease under its identifier, every
    /// lease has nodes, and no exclusive lease shares a node with another.
    pub open spec fn well_formed(self) -> bool {
        &&& forall|k: Seq<char>| #[trigger]
            self.nodes.contains_key(k) ==> self.nodes[k].info.node_id@ == k
        &&& forall|k: Seq<char>| #[trigger]
            self.leases.contains_key(k) ==> self.leases[k].lease_id@ == k
                && self.leases[k].nodes@.len() > 0
        &&& self.leases_are_compatible()
    }

    /// Whether each of the nodes is connected.
    pub open spec fn all_connected(self, nodes: Seq<Seq<char>>) -> bool {
        forall|i: int| 0 <= i < nodes.len() ==> self.nodes.contains_key(#[trigger] nodes[i])
    }
}

/// What is kept of a sequence is what is in it and fits.
proof fn lemma_filter_contains(s: Seq<Seq<char>>, fits: spec_fn(Seq<char>) -> bool, x: Seq<char>)
    ensures
        s.filter(fits).contains(x) == (s.contains(x) && fits(x)),
    decreases s.len(),
{
    reveal(Seq::filter);
    if s.len() > 0 {
        let shorter = s.drop_last();
        lemma_filter_contains(shorter, fits, x);
        let kept = shorter.filter(fits);
        assert(s.contains(x) == (shorter.contains(x) || x == s.last())) by {
            if shorter.contains(x) {
                assert(s[shorter.index_of(x)] == x);
            }
            if s.contains(x) {
                let i = s.index_of(x);
                if i < shorter.len() {
                    assert(shorter[i] == x);
                }
            }
            assert(s[s.len() - 1] == s.last());
        }
        if fits(s.last()) {
            let more = kept.push(s.last());
            assert(more.contains(x) == (kept.contains(x) || x == s.last())) by {
                if kept.contains(x) {
                    assert(more[kept.index_of(x)] == x);
                }
                if more.contains(x) {
                    let i = more.index_of(x);
                    if i < kept.len() {
                        assert(kept[i] == x);
                    }
                }
                assert(more[kept.len() as int] == s.last());
            }
        }
    }
}

/// Whether a task of a job runs on the node at a position, on this connection.
spec fn reached(
    state: CoordinatorState,
    i: int,
    job_id: Seq<char>,
    connection: u64,
    task_id: Seq<char>,
) -> bool {
    state.nodes@[state.nodes.keys()[i]].connection == connection && state.killed_on(
        i,
        job_id,
    ).contains(task_id)
}

/// The orders on the first `n` nodes are those for the tasks that run on one of them.
proof fn lemma_kills(
    state: CoordinatorState,
    n: int,
    job_id: Seq<char>,
    connection: u64,
    task_id: Seq<char>,
)
    requires
        0 <= n,
    ensures
        state.kills(n, job_id).contains((connection, task_id)) <==> exists|i: int|
            0 <= i < n && #[trigger] reached(state, i, job_id, connection, task_id),
    decreases n,
{
    let order = (connection, task_id);
    if n > 0 {
        lemma_kills(state, n - 1, job_id, connection, task_id);
        let own = state.nodes@[state.nodes.keys()[n - 1]].connection;
        let before = state.kills(n - 1, job_id);
        let tasks = state.killed_on(n - 1, job_id);
        let added = tasks.map_values(|task_id: Seq<char>| (own, task_id));
        let all = state.kills(n, job_id);
        assert(all == before + added);
        if before.contains(order) {
            assert(all[before.index_of(order)] == order);
        }
        if reached(state, n - 1, job_id, connection, task_id) {
            assert(added[tasks.index_of(task_id)] == order);
            assert(all[before.len() + tasks.index_of(task_id)] == order);
        }
        if all.contains(order) {
            let i = all.index_of(order);
            if i < before.len() {
                assert(before[i] == order);
            } else {
                assert(added[i - before.len()] == order);
                assert(tasks[i - before.len()] == task_id);
                assert(reached(state, n - 1, job_id, connection, task_id));
            }
        }
    }
}

/// The orders that end a job go to exactly the connections of the nodes on which a task of the
/// job runs, for exactly those tasks.
pub proof fn law_kill_reaches_the_running_tasks(
    state: CoordinatorState,
    job_id: Seq<char>,
    connection: u64,
    task_id: Seq<char>,
)
    ensures
        state.kills(state.nodes.keys().len() as int, job_id).contains((connection, task_id))
            <==> exists|node_id: Seq<char>| #[trigger]
            state@.runs(node_id, task_id) && state@.nodes[node_id].connection == connection
                && state@.nodes[node_id].running[task_id]@ == job_id,
{
    let keys = state.nodes.keys();
    let n = keys.len() as int;
    lemma_kills(state, n, job_id, connection, task_id);
    assert forall|i: int| 0 <= i < n implies #[trigger] reached(
        state,
        i,
        job_id,
        connection,
        task_id,
    ) == (state@.runs(keys[i], task_id) && state@.nodes[keys[i]].connection == connection
        && state@.nodes[keys[i]].running[task_id]@ == job_id) by {
        assert(keys.contains(keys[i]));
        let node = state.nodes@[keys[i]];
        lemma_filter_contains(
            node.running_tasks.keys(),
            belongs_to(node.running_tasks@, job_id),
            task_id,
        );
    }
    if state.kills(n, job_id).contains((connection, task_id)) {
        let i = choose|i: int|
            0 <= i < n && #[trigger] reached(state, i, job_id, connection, task_id);
        assert(state@.runs(keys[i], task_id));
    }
    if exists|node_id: Seq<char>| #[trigger]
        state@.runs(node_id, task_id) && state@.nodes[node_id].connection == connection
            && state@.nodes[node_id].running[task_id]@ == job_id {
        let node_id = choose|node_id: Seq<char>| #[trigger]
            state@.runs(node_id, task_id) && state@.nodes[node_id].connection == connection
                && state@.nodes[node_id].running[task_id]@ == job_id;
        assert(keys.contains(node_id));
        assert(keys[keys.index_of(node_id)] == node_id);
        assert(reached(state, keys.index_of(node_id), job_id, connection, task_id));
    }
}

/// A task that was given to a connected node can be ended from then on.
pub proof fn law_given_task_can_be_killed(
    before: StateView,
    after: CoordinatorState,
    node_id: Seq<char>,
    task_id: Seq<char>,
    job_id: JobId,
)
    requires
        before.nodes.contains_key(node_id),
        after@ == before.running(node_id, task_id, job_id),
    ensures
        after.kills(after.nodes.keys().len() as int, job_id@).contains(
            (before.nodes[node_id].connection, task_id),
        ),
{
    assert(after@.runs(node_id, task_id));
    law_kill_reaches_the_running_tasks(
        after,
        job_id@,
        before.nodes[node_id].connection,
        task_id,
    );
}

/// A task that a worker says has started runs on its node until the worker says that it has
/// ended; both leave other tasks and nodes as they were.
pub proof fn law_started_task_runs_until_it_ends(
    state: StateView,
    started: TaskStarted,
    exited: TaskExited,
    node_id: Seq<char>,
    task_id: Seq<char>,
)
    requires
        state.nodes.contains_key(started.node_id@),
        exited.node_id@ == started.node_id@,
        exited.task_id@ == started.task_id@,
    ensures
        ({
            let running = state.after_message(WorkerMessage::TaskStarted(started));
            let ended = running.after_message(WorkerMessage::TaskExited(exited));
            &&& running.runs(started.node_id@, started.task_id@)
            &&& running.nodes[started.node_id@].running[started.task_id@] == started.job_id
            &&& !ended.runs(started.node_id@, started.task_id@)
            &&& node_id != started.node_id@ || task_id != started.task_id@ ==> ended.runs(
                node_id,
                task_id,
            ) == state.runs(node_id, task_id)
        }),
{
}

/// Every change that workers and runs make keeps the state well-formed.
pub proof fn law_state_stays_well_formed(
    state: StateView,
    message: WorkerMessage,
    info: NodeInfo,
    connection: u64,
    at: Timestamp,
    node_id: Seq<char>,
    task_id: Seq<char>,
    job_id: JobId,
)
    requires
        state.well_formed(),
    ensures
        state.after_message(message).well_formed(),
        state.registered(info, connection, at).well_formed(),
        state.running(node_id, task_id, job_id).well_formed(),
        state.without_node(node_id).well_formed(),
{
    law_workers_leave_leases_alone(state, message, info, connection, at, node_id);
    lemma_same_leases(state, state.after_message(message));
    lemma_same_leases(state, state.registered(info, connection, at));
    lemma_same_leases(state, state.running(node_id, task_id, job_id));
    lemma_same_leases(state, state.without_node(node_id));
}

/// What holds of leases depends on the leases alone.
proof fn lemma_same_leases(a: StateView, b: StateView)
    requires
        a.leases == b.leases,
        a.leases_are_compatible(),
    ensures
        b.leases_are_compatible(),
{
    assert forall|x: Seq<char>, y: Seq<char>|
        #![trigger b.leases[x], b.leases[y]]
        x != y && b.leases.contains_key(x) && b.leases.contains_key(y)
            && b.leases[x].exclusive implies !overlap(b.leases[x].nodes@, b.leases[y].nodes@) by {
        assert(a.leases[x] == b.leases[x] && a.leases[y] == b.leases[y]);
    }
}

/// No message of a worker, no registration and no loss of a node touches a lease.
pub proof fn law_workers_leave_leases_alone(
    state: StateView,
    message: WorkerMessage,
    info: NodeInfo,
    connection: u64,
    at: Timestamp,
    node_id: Seq<char>,
)
    ensures
        state.after_message(message).leases == state.leases,
        state.registered(info, connection, at).leases == state.leases,
        state.without_node(node_id).leases == state.leases,
{
}

/// What a worker's message changes, and what is told of it. A heartbeat sets when its node was
/// last heard of. A start puts the task among those that run on its node, an end takes it away,
/// and each is published as it came, as log lines are. A message about a node that is not
/// connected changes nothing, and no message changes anything else.
pub proof fn law_messages_do_what_they_say(
    state: StateView,
    message: WorkerMessage,
    now: Timestamp,
    other: Seq<char>,
)
    ensures
        ({
            let after = state.after_message(message);
            let effects = state.effects_of(message, now);
            &&& after.leases == state.leases
            &&& after.nodes.contains_key(other) == state.nodes.contains_key(other)
            &&& state.nodes.contains_key(other) ==> {
                &&& after.nodes[other].info == state.nodes[other].info
                &&& after.nodes[other].connection == state.nodes[other].connection
            }
            &&& match message {
                WorkerMessage::Heartbeat(beat) => {
                    &&& effects.len() == 0
                    &&& state.nodes.contains_key(other) ==> {
                        &&& after.nodes[other].running == state.nodes[other].running
                        &&& other == beat.node_id@ ==> after.nodes[other].last_seen
                            == beat.timestamp
                        &&& other != beat.node_id@ ==> after.nodes[other].last_seen
                            == state.nodes[other].last_seen
                    }
                },
                WorkerMessage::TaskStarted(event) => {
                    &&& effects.len() == 1
                    &&& effects[0] == Effect::Publish(CoordinatorEvent::Started(event))
                    &&& state.nodes.contains_key(other) ==> {
                        &&& after.nodes[other].last_seen == state.nodes[other].last_seen
                        &&& other == event.node_id@ ==> after.nodes[other].running
                            == state.nodes[other].running.insert(event.task_id@, event.job_id)
                        &&& other != event.node_id@ ==> after.nodes[other].running
                            == state.nodes[other].running
                    }
                },
                WorkerMessage::LogLine(line) => {
                    &&& after == state
                    &&& effects.len() == 1
                    &&& effects[0] == Effect::Publish(CoordinatorEvent::Log(line))
                },
                WorkerMessage::TaskExited(event) => {
                    &&& effects.len() == 1
                    &&& effects[0] == Effect::Publish(CoordinatorEvent::Exited(event))
                    &&& state.nodes.contains_key(other) ==> {
                        &&& after.nodes[other].last_seen == state.nodes[other].last_seen
                        &&& other == event.node_id@ ==> after.nodes[other].running
                            == state.nodes[other].running.remove(event.task_id@)
                        &&& other != event.node_id@ ==> after.nodes[other].running
                            == state.nodes[other].running
                    }
                },
                WorkerMessage::Error(error) => {
                    &&& effects.len() > 0
                    &&& effects.last() == Effect::Publish(CoordinatorEvent::Error(error))
                },
                WorkerMessage::Register(_) => after == state && effects.len() == 0,
            }
        }),
{
}

/// Where a worker's failure is about a task that runs on the named node, the task no longer runs;
/// its end without success and without an exit code is kept and published, under the job that the
/// task belongs to, before the failure is. Any other failure is published alone and changes
/// nothing.
pub proof fn law_failure_ends_the_running_task(
    state: StateView,
    error: WorkerError,
    now: Timestamp,
    node_id: Seq<char>,
    task_id: Seq<char>,
)
    ensures
        ({
            let after = state.after_message(WorkerMessage::Error(error));
            let effects = state.effects_of(WorkerMessage::Error(error), now);
            let known = error.node_id is Some && error.task_id is Some && state.nodes.contains_key(
                error.node_id->0@,
            ) && state.nodes[error.node_id->0@].running.contains_key(error.task_id->0@);
            &&& known ==> {
                &&& effects.len() == 3
                &&& effects[0] matches Effect::Store(StoreWrite::Exited(exit))
                &&& exit.job_id == state.nodes[error.node_id->0@].running[error.task_id->0@]
                &&& exit.task_id == error.task_id->0
                &&& exit.node_id == error.node_id->0
                &&& exit.exit_code is None
                &&& !exit.success
                &&& exit.timestamp == now
                &&& effects[1] == Effect::Publish(CoordinatorEvent::Exited(exit))
                &&& effects[2] == Effect::Publish(CoordinatorEvent::Error(error))
                &&& !after.nodes[error.node_id->0@].running.contains_key(error.task_id->0@)
            }
            &&& !known ==> {
                &&& effects.len() == 1
                &&& effects[0] == Effect::Publish(CoordinatorEvent::Error(error))
                &&& state.nodes.contains_key(node_id) ==> after.nodes[node_id].running
                    =~= state.nodes[node_id].running
            }
            &&& state.nodes.contains_key(node_id) && !(known && error.node_id->0@ == node_id
                && error.task_id->0@ == task_id) ==> after.nodes[node_id].running.contains_key(
                task_id,
            ) == state.nodes[node_id].running.contains_key(task_id)
        }),
{
}

/// What is kept of a message before anything else is done: starts, log lines and ends, as they
/// came, and nothing of other messages.
pub proof fn law_first_write_keeps_the_message(message: WorkerMessage)
    ensures
        match message {
            WorkerMessage::TaskStarted(event) => first_write_of(message) == Some(
                StoreWrite::Started(event),
            ),
            WorkerMessage::LogLine(line) => first_write_of(message) == Some(StoreWrite::Log(line)),
            WorkerMessage::TaskExited(event) => first_write_of(message) == Some(
                StoreWrite::Exited(event),
            ),
            WorkerMessage::Heartbeat(_) => first_write_of(message) is None,
            WorkerMessage::Register(_) => first_write_of(message) is None,
            WorkerMessage::Error(_) => first_write_of(message) is None,
        },
{
}

/// A worker that registers is there with what it said of itself, on its connection, heard of when
/// it registered and with nothing running. Other workers and leases stay.
pub proof fn law_registered_worker_is_there(
    state: StateView,
    info: NodeInfo,
    connection: u64,
    at: Timestamp,
    other: Seq<char>,
)
    ensures
        ({
            let after = state.registered(info, connection, at);
            &&& after.nodes.contains_key(info.node_id@)
            &&& after.nodes[info.node_id@].info == info
            &&& after.nodes[info.node_id@].connection == connection
            &&& after.nodes[info.node_id@].last_seen == at
            &&& forall|task_id: Seq<char>|
                !#[trigger] after.nodes[info.node_id@].running.contains_key(task_id)
            &&& other != info.node_id@ ==> after.nodes.contains_key(other)
                == state.nodes.contains_key(other) && after.nodes[other] == state.nodes[other]
            &&& after.leases == state.leases
        }),
{
}

/// A lost node is no longer there; other nodes and the leases stay.
pub proof fn law_lost_node_is_gone(state: StateView, node_id: Seq<char>, other: Seq<char>)
    ensures
        !state.without_node(node_id).nodes.contains_key(node_id),
        other != node_id ==> state.without_node(node_id).nodes.contains_key(other)
            == state.nodes.contains_key(other) && state.without_node(node_id).nodes[other]
            == state.nodes[other],
        state.without_node(node_id).leases == state.leases,
{
}

/// For each task that ran on a lost node, in turn, a system line with the reason is kept and
/// published, and then the task's end, without success and without an exit code, under its own
/// job and node.
pub proof fn law_losses_are_told(
    effects: Seq<Effect>,
    node_id: Seq<char>,
    tasks: Seq<Seq<char>>,
    jobs: Map<Seq<char>, JobId>,
    reason: Seq<char>,
    k: int,
)
    requires
        tells_losses(effects, node_id, tasks, jobs, reason),
        0 <= k < tasks.len(),
    ensures
        effects.len() == 4 * tasks.len(),
        ({
            &&& effects[4 * k] matches Effect::Store(StoreWrite::Log(line))
            &&& effects[4 * k + 1] == Effect::Publish(CoordinatorEvent::Log(line))
            &&& line.job_id == jobs[tasks[k]]
            &&& line.task_id@ == tasks[k]
            &&& line.node_id@ == node_id
            &&& line.stream == LogStream::System
            &&& line.line@ == reason
            &&& line.offset == 0
            &&& effects[4 * k + 2] matches Effect::Store(StoreWrite::Exited(exit))
            &&& effects[4 * k + 3] == Effect::Publish(CoordinatorEvent::Exited(exit))
            &&& exit.job_id == jobs[tasks[k]]
            &&& exit.task_id@ == tasks[k]
            &&& exit.node_id@ == node_id
            &&& exit.exit_code is None
            &&& !exit.success
            &&& exit.timestamp == line.timestamp
        }),
{
    let own = effects.subrange(4 * k, 4 * k + 4);
    assert(tells_loss(own, node_id, tasks[k], jobs[tasks[k]], reason));
    assert(own[0] == effects[4 * k]);
    assert(own[1] == effects[4 * k + 1]);
    assert(own[2] == effects[4 * k + 2]);
    assert(own[3] == effects[4 * k + 3]);
}

/// The tasks that are lost with a node are those that run on it, and none where it is not there.
pub proof fn law_lost_tasks_are_those_that_ran(
    state: CoordinatorState,
    node_id: Seq<char>,
    task_id: Seq<char>,
)
    ensures
        state.tasks_on(node_id).contains(task_id) <==> state@.nodes.contains_key(node_id)
            && state@.nodes[node_id].running.contains_key(task_id),
{
}

/// The orders that end a job: one for each node and each task of the job that runs there, with
/// the connection of the node.
pub proof fn law_kill_orders_are_for_running_tasks_of_the_job(
    state: CoordinatorState,
    job_id: Seq<char>,
    connection: u64,
    task_id: Seq<char>,
)
    ensures
        state.kills(state.nodes.keys().len() as int, job_id).contains((connection, task_id))
            <==> exists|node_id: Seq<char>| #[trigger]
            state@.nodes.contains_key(node_id) && state@.nodes[node_id].running.contains_key(
                task_id,
            ) && state@.nodes[node_id].running[task_id]@ == job_id
                && state@.nodes[node_id].connection == connection,
        state.kills(state.nodes.keys().len() as int, job_id).len() == running_count(
            state,
            state.nodes.keys().len() as int,
            job_id,
        ),
{
    law_kill_reaches_the_running_tasks(state, job_id, connection, task_id);
    if exists|node_id: Seq<char>| #[trigger]
        state@.runs(node_id, task_id) && state@.nodes[node_id].connection == connection
            && state@.nodes[node_id].running[task_id]@ == job_id {
        let node_id = choose|node_id: Seq<char>| #[trigger]
            state@.runs(node_id, task_id) && state@.nodes[node_id].connection == connection
                && state@.nodes[node_id].running[task_id]@ == job_id;
        assert(state@.nodes.contains_key(node_id));
    }
    if exists|node_id: Seq<char>| #[trigger]
        state@.nodes.contains_key(node_id) && state@.nodes[node_id].running.contains_key(task_id)
            && state@.nodes[node_id].running[task_id]@ == job_id && state@.nodes[node_id].connection
            == connection {
        let node_id = choose|node_id: Seq<char>| #[trigger]
            state@.nodes.contains_key(node_id) && state@.nodes[node_id].running.contains_key(
                task_id,
            ) && state@.nodes[node_id].running[task_id]@ == job_id
                && state@.nodes[node_id].connection == connection;
        assert(state@.runs(node_id, task_id));
    }
    lemma_kill_count(state, state.nodes.keys().len() as int, job_id);
}

/// The number of tasks of a job among tasks.
pub open spec fn count_of_job(
    tasks: Seq<Seq<char>>,
    jobs: Map<Seq<char>, JobId>,
    job_id: Seq<char>,
) -> nat
    decreases tasks.len(),
{
    if tasks.len() == 0 {
        0
    } else {
        count_of_job(tasks.drop_last(), jobs, job_id) + if jobs[tasks.last()]@ == job_id {
            1nat
        } else {
            0
        }
    }
}

/// The number of tasks of a job that run on the first `n` nodes.
pub open spec fn running_count(state: CoordinatorState, n: int, job_id: Seq<char>) -> nat
    decreases n,
{
    if n <= 0 {
        0
    } else {
        let node = state.nodes@[state.nodes.keys()[n - 1]];
        running_count(state, n - 1, job_id) + count_of_job(
            node.running_tasks.keys(),
            node.running_tasks@,
            job_id,
        )
    }
}

/// There are as many orders as tasks of the job.
proof fn lemma_kill_count(state: CoordinatorState, n: int, job_id: Seq<char>)
    ensures
        state.kills(n, job_id).len() == running_count(state, n, job_id),
    decreases n,
{
    if n > 0 {
        lemma_kill_count(state, n - 1, job_id);
        let node = state.nodes@[state.nodes.keys()[n - 1]];
        lemma_job_count(node.running_tasks.keys(), node.running_tasks@, job_id);
    }
}

/// As many tasks are kept as belong to the job.
proof fn lemma_job_count(
    tasks: Seq<Seq<char>>,
    jobs: Map<Seq<char>, JobId>,
    job_id: Seq<char>,
)
    ensures
        tasks_of_job(tasks, jobs, job_id).len() == count_of_job(tasks, jobs, job_id),
    decreases tasks.len(),
{
    reveal(Seq::filter);
    if tasks.len() > 0 {
        lemma_job_count(tasks.drop_last(), jobs, job_id);
    }
}

/// What clients are told of a node is what is known of it, and that it is online.
pub proof fn law_node_summary_says_what_is_known(node: WorkerView, s: NodeSummary)
    requires
        node.summed_up(s),
    ensures
        s.node_id == node.info.node_id,
        s.node_name == node.info.node_name,
        s.hostname == node.info.hostname,
        s.online,
        s.last_seen == node.last_seen,
        s.running_tasks == node.running.dom().len(),
        s.labels@ == node.info.labels@,
{
}

/// Each node of a list is there under its own identifier.
pub proof fn law_identifiers_are_taken_one_by_one(nodes: Seq<NodeId>, orders_given: Seq<KillOrder>, i: int)
    ensures
        ids(nodes).len() == nodes.len(),
        0 <= i < nodes.len() ==> ids(nodes)[i] == nodes[i]@,
        orders(orders_given).len() == orders_given.len(),
        0 <= i < orders_given.len() ==> orders(orders_given)[i] == (
            orders_given[i].connection,
            orders_given[i].task_id@,
        ),
{
}

/// What is said of the coordinator's state is what is in its tables.
pub proof fn law_state_says_what_is_in_its_tables(state: CoordinatorState, node_id: Seq<char>)
    ensures
        state@.nodes.contains_key(node_id) == state.nodes@.contains_key(node_id),
        state.nodes@.contains_key(node_id) ==> {
            &&& state@.nodes[node_id].info == state.nodes@[node_id].info
            &&& state@.nodes[node_id].connection == state.nodes@[node_id].connection
            &&& state@.nodes[node_id].last_seen == state.nodes@[node_id].last_seen
            &&& state@.nodes[node_id].running == state.nodes@[node_id].running_tasks@
        },
        state@.leases == state.leases@,
{
}

/// A well-formed state has each worker under its own node, each lease under its own identifier,
/// and no lease without nodes.
pub proof fn law_well_formed_state(state: StateView, key: Seq<char>)
    requires
        state.well_formed(),
    ensures
        state.nodes.contains_key(key) ==> state.nodes[key].info.node_id@ == key,
        state.leases.contains_key(key) ==> state.leases[key].lease_id@ == key
            && state.leases[key].nodes@.len() > 0,
{
}

} // verus!
