//! The messages that coordinator, workers and clients exchange.
use vstd::prelude::*;

use crate::ids::{JobId, LeaseId, NodeId, TaskId};
use crate::table::Table;
use crate::time::Timestamp;

verus! {

/// Environment variables by name.
pub type EnvMap = Table<String>;

/// A copy of a list of texts.
pub fn copy_texts(list: &Vec<String>) -> (r: Vec<String>)
    ensures
        r@ == list@,
{
    let r = list.clone();
    proof {
        assert(r@ =~= list@);
    }
    r
}

/// A copy of a list of nodes.
pub fn copy_nodes(list: &Vec<NodeId>) -> (r: Vec<NodeId>)
    ensures
        r@ == list@,
{
    let r = list.clone();
    proof {
        assert(r@ =~= list@);
    }
    r
}

/// Adds the variables of `more` to `env`; where both hold a name, `more` decides.
pub fn extend_env(env: &mut EnvMap, more: &EnvMap)
    ensures
        final(env)@ == old(env)@.union_prefer_right(more@),
{
    let n = more.len();
    let ghost before = env@;
    proof {
        assert(before.union_prefer_right(more@.restrict(more.keys().take(0).to_set())) =~= before);
    }
    for i in 0..n
        invariant
            n == more.keys().len(),
            more.keys().no_duplicates(),
            more@.dom() == more.keys().to_set(),
            env@ == before.union_prefer_right(more@.restrict(more.keys().take(i as int).to_set())),
    {
        let ghost so_far = more.keys().take(i as int);
        let value = more.value_at(i).clone();
        let key = more.key_at(i).clone();
        proof {
            let next = more.keys().take(i + 1);
            assert(next =~= so_far.push(key@));
            assert forall|k: Seq<char>| #[trigger] next.to_set().contains(k)
                == so_far.to_set().insert(key@).contains(k) by {
                if so_far.contains(k) {
                    assert(next[so_far.index_of(k)] == k);
                }
                assert(next[i as int] == key@);
            }
            assert(before.union_prefer_right(more@.restrict(next.to_set()))
                =~= before.union_prefer_right(more@.restrict(so_far.to_set())).insert(
                key@,
                value,
            ));
        }
        env.insert(key, value);
    }
    proof {
        assert(more.keys().take(n as int) =~= more.keys());
        assert(more@.restrict(more.keys().to_set()) =~= more@);
    }
}

/// A copy of environment variables.
pub fn copy_env(env: &EnvMap) -> (r: EnvMap)
    ensures
        r@ == env@,
{
    let mut r: EnvMap = Table::new();
    extend_env(&mut r, env);
    proof {
        assert(Map::<Seq<char>, String>::empty().union_prefer_right(env@) =~= env@);
    }
    r
}

/// All that a worker needs to start one task.
#[derive(Debug)]
pub struct RunSpec {
    pub job_id: JobId,
    pub task_id: TaskId,
    pub node_id: NodeId,
    pub argv: Vec<String>,
    pub cwd: String,
    pub env: EnvMap,
    pub timeout: Option<DurationSpec>,
    pub resources: ResourceSpec,
    pub filesystem: FilesystemSpec,
    pub network: NetworkSpec,
    pub devices: DeviceSpec,
    pub sandbox: SandboxRequest,
    pub secrets: Vec<SecretRef>,
    pub log_policy: LogPolicy,
}

impl RunSpec {
    /// Whether there is no limit but for a timeout, no sandbox and no secret.
    pub open spec fn is_unlimited(self) -> bool {
        &&& self.resources.is_unlimited()
        &&& self.filesystem.is_unrestricted()
        &&& self.network.is_open()
        &&& self.devices.gpu && self.devices.infiniband
        &&& self.sandbox.profile@ == "none"@
        &&& self.secrets@.len() == 0
        &&& self.log_policy.redact_secrets
        &&& self.log_policy.max_line_bytes == 16384
    }

    /// Whether all but the identifiers, the command, its directory and its environment is as a
    /// plain run leaves it: no limits, no sandbox, no secrets.
    pub open spec fn is_plain(self) -> bool {
        self.timeout is None && self.is_unlimited()
    }

    /// A run without limits, sandbox or secrets.
    pub fn simple(
        job_id: JobId,
        task_id: TaskId,
        node_id: NodeId,
        argv: Vec<String>,
        cwd: String,
        env: EnvMap,
    ) -> (r: Self)
        ensures
            r.job_id == job_id,
            r.task_id == task_id,
            r.node_id == node_id,
            r.argv == argv,
            r.cwd == cwd,
            r.env == env,
            r.is_plain(),
    {
        RunSpec {
            job_id,
            task_id,
            node_id,
            argv,
            cwd,
            env,
            timeout: None,
            resources: ResourceSpec::default(),
            filesystem: FilesystemSpec::default(),
            network: NetworkSpec::default(),
            devices: DeviceSpec::default(),
            sandbox: SandboxRequest::none(),
            secrets: Vec::new(),
            log_policy: LogPolicy::default(),
        }
    }
}

/// A length of time in whole seconds.
#[derive(Clone, Copy, Debug, PartialEq, Eq, Structural)]
pub struct DurationSpec {
    pub seconds: u64,
}

/// The number of whole seconds that `Duration::as_secs` gives.
pub uninterp spec fn whole_seconds(duration: std::time::Duration) -> u64;

/// `std::time::Duration::as_secs`: the number of whole seconds, which is a function of the
/// duration.
pub assume_specification[ std::time::Duration::as_secs ](duration: &std::time::Duration) -> (r: u64)
    ensures
        r == whole_seconds(*duration),
;

impl From<std::time::Duration> for DurationSpec {
    fn from(value: std::time::Duration) -> (r: Self) {
        DurationSpec { seconds: value.as_secs() }
    }
}

impl vstd::std_specs::convert::FromSpecImpl<std::time::Duration> for DurationSpec {
    open spec fn obeys_from_spec() -> bool {
        true
    }

    open spec fn from_spec(value: std::time::Duration) -> Self {
        DurationSpec { seconds: whole_seconds(value) }
    }
}

/// A share of processor cores, as the bits of a single-precision number.
#[derive(Clone, Copy, Debug, PartialEq, Eq, Structural)]
pub struct CpuShare {
    pub bits: u32,
}

/// The resources that a task may use.
#[derive(Clone, Debug)]
pub struct ResourceSpec {
    pub cpu_cores: Option<CpuShare>,
    pub memory_mb: Option<u64>,
    pub gpu_count: Option<u32>,
}

impl ResourceSpec {
    /// Whether no resource is limited.
    pub open spec fn is_unlimited(self) -> bool {
        self.cpu_cores is None && self.memory_mb is None && self.gpu_count is None
    }
}

impl Default for ResourceSpec {
    fn default() -> (r: Self)
        ensures
            r.is_unlimited(),
    {
        ResourceSpec { cpu_cores: None, memory_mb: None, gpu_count: None }
    }
}

/// The paths that a task works on.
#[derive(Clone, Debug)]
pub struct FilesystemSpec {
    pub workspace: Option<String>,
    pub read_paths: Vec<String>,
    pub write_paths: Vec<String>,
}

impl FilesystemSpec {
    /// Whether no path is named.
    pub open spec fn is_unrestricted(self) -> bool {
        self.workspace is None && self.read_paths@.len() == 0 && self.write_paths@.len() == 0
    }
}

impl Default for FilesystemSpec {
    fn default() -> (r: Self)
        ensures
            r.is_unrestricted(),
    {
        FilesystemSpec { workspace: None, read_paths: Vec::new(), write_paths: Vec::new() }
    }
}

/// How a task may use the network.
#[derive(Clone, Copy, Debug, PartialEq, Eq, Structural)]
pub enum NetworkMode {
    Allow,
    Deny,
    AllowList,
}

/// The network access of a task.
#[derive(Clone, Debug)]
pub struct NetworkSpec {
    pub mode: NetworkMode,
    pub allow: Vec<String>,
}

impl NetworkSpec {
    /// Whether the network is open and no host is listed.
    pub open spec fn is_open(self) -> bool {
        self.mode == NetworkMode::Allow && self.allow@.len() == 0
    }
}

impl Default for NetworkSpec {
    fn default() -> (r: Self)
        ensures
            r.is_open(),
    {
        NetworkSpec { mode: NetworkMode::Allow, allow: Vec::new() }
    }
}

/// The devices that a task may use.
#[derive(Clone, Debug)]
pub struct DeviceSpec {
    pub gpu: bool,
    pub infiniband: bool,
}

impl Default for DeviceSpec {
    fn default() -> (r: Self)
        ensures
            r.gpu,
            r.infiniband,
    {
        DeviceSpec { gpu: true, infiniband: true }
    }
}

/// The sandbox that a task asks for.
#[derive(Clone, Debug)]
pub struct SandboxRequest {
    pub profile: String,
}

impl SandboxRequest {
    /// The request for no sandbox.
    pub fn none() -> (r: Self)
        ensures
            r.profile@ == "none"@,
    {
        SandboxRequest { profile: "none".to_owned() }
    }
}

/// The name of a secret.
#[derive(Clone, Debug)]
pub struct SecretRef {
    pub name: String,
}

/// How the output of a task is logged.
#[derive(Clone, Debug)]
pub struct LogPolicy {
    pub redact_secrets: bool,
    pub max_line_bytes: usize,
}

impl Default for LogPolicy {
    fn default() -> (r: Self)
        ensures
            r.redact_secrets,
            r.max_line_bytes == 16384,
    {
        LogPolicy { redact_secrets: true, max_line_bytes: 16 * 1024 }
    }
}

/// The outcome of a policy check.
#[derive(Clone, Copy, Debug, PartialEq, Eq, Structural)]
pub enum DecisionKind {
    Allow,
    Ask,
    Deny,
}

/// How risky an operation is.
#[derive(Clone, Copy, Debug, PartialEq, Eq, Structural)]
pub enum RiskLevel {
    Low,
    Medium,
    High,
}

/// What a policy says of an operation.
#[derive(Clone, Debug)]
pub struct PolicyDecision {
    pub decision: DecisionKind,
    pub reason: String,
    pub risk: RiskLevel,
    pub sandbox_profile: Option<String>,
    pub requires_human_approval: bool,
    pub warnings: Vec<String>,
}

impl PolicyDecision {
    /// The decision that lets every operation pass.
    pub fn allow_all() -> (r: Self)
        ensures
            r.decision == DecisionKind::Allow,
            r.reason@ == "allow_all mode"@,
            r.risk == RiskLevel::Medium,
            r.sandbox_profile matches Some(p) && p@ == "none"@,
            !r.requires_human_approval,
            r.warnings@.len() == 0,
    {
        PolicyDecision {
            decision: DecisionKind::Allow,
            reason: "allow_all mode".to_owned(),
            risk: RiskLevel::Medium,
            sandbox_profile: Some("none".to_owned()),
            requires_human_approval: false,
            warnings: Vec::new(),
        }
    }
}

/// An operation that a policy is asked about.
#[derive(Clone, Debug)]
pub struct OperationRequest {
    pub subject: Subject,
    pub action: String,
    pub resource: Resource,
    pub scope: Scope,
    pub context: OperationContext,
}

impl OperationRequest {
    /// Whether this is the request to start the process of `spec`.
    pub open spec fn starts(self, spec: RunSpec, requested_by: Seq<char>) -> bool {
        &&& self.subject.subject_type@ == "agent"@
        &&& self.subject.name@ == requested_by
        &&& self.subject.session_id is None
        &&& self.action@ == "process.start"@
        &&& self.resource.node_id == spec.node_id
        &&& self.resource.argv@ == spec.argv@
        &&& self.resource.cwd == spec.cwd
        &&& self.scope.workspace == spec.filesystem.workspace
        &&& self.context.requested_by@ == "worker"@
        &&& self.context.job_id == spec.job_id
        &&& self.context.task_id == spec.task_id
    }

    /// The request to start the process of `spec`.
    pub fn process_start(spec: &RunSpec, requested_by: &str) -> (r: Self)
        ensures
            r.starts(*spec, requested_by@),
    {
        OperationRequest {
            subject: Subject {
                subject_type: "agent".to_owned(),
                name: requested_by.to_owned(),
                session_id: None,
            },
            action: "process.start".to_owned(),
            resource: Resource {
                node_id: spec.node_id.clone(),
                argv: copy_texts(&spec.argv),
                cwd: spec.cwd.clone(),
            },
            scope: Scope { workspace: spec.filesystem.workspace.clone() },
            context: OperationContext {
                requested_by: "worker".to_owned(),
                job_id: spec.job_id.clone(),
                task_id: spec.task_id.clone(),
            },
        }
    }
}

/// Who asks for an operation.
#[derive(Clone, Debug)]
pub struct Subject {
    pub subject_type: String,
    pub name: String,
    pub session_id: Option<String>,
}

/// What an operation works on.
#[derive(Clone, Debug)]
pub struct Resource {
    pub node_id: NodeId,
    pub argv: Vec<String>,
    pub cwd: String,
}

/// Where an operation may reach.
#[derive(Clone, Debug)]
pub struct Scope {
    pub workspace: Option<String>,
}

/// On whose behalf an operation runs.
#[derive(Clone, Debug)]
pub struct OperationContext {
    pub requested_by: String,
    pub job_id: JobId,
    pub task_id: TaskId,
}

/// What a worker says of its node when it registers.
#[derive(Clone, Debug)]
pub struct NodeInfo {
    pub node_id: NodeId,
    pub node_name: String,
    pub hostname: String,
    pub os: String,
    pub arch: String,
    pub labels: Vec<String>,
    pub started_at: Timestamp,
}

impl NodeInfo {
    /// The node with this name, started at the given time; its identifier is its name.
    pub fn started(
        node_name: String,
        hostname: String,
        os: &str,
        arch: &str,
        started_at: Timestamp,
    ) -> (r: Self)
        ensures
            r.node_id@ == node_name@,
            r.node_name == node_name,
            r.hostname == hostname,
            r.os@ == os@,
            r.arch@ == arch@,
            r.labels@.len() == 0,
            r.started_at == started_at,
    {
        NodeInfo {
            node_id: NodeId(node_name.clone()),
            node_name,
            hostname,
            os: os.to_owned(),
            arch: arch.to_owned(),
            labels: Vec::new(),
            started_at,
        }
    }

    /// The node with this name, started now.
    pub fn new(node_name: String, hostname: String, os: &str, arch: &str) -> (r: Self)
        ensures
            r.node_id@ == node_name@,
            r.node_name == node_name,
            r.hostname == hostname,
            r.os@ == os@,
            r.arch@ == arch@,
            r.labels@.len() == 0,
    {
        NodeInfo::started(node_name, hostname, os, arch, Timestamp::now())
    }
}

/// A sign of life of a worker.
#[derive(Clone, Debug)]
pub struct NodeHeartbeat {
    pub node_id: NodeId,
    pub timestamp: Timestamp,
    pub running_tasks: usize,
}

/// What a client is told of a node.
#[derive(Clone, Debug)]
pub struct NodeSummary {
    pub node_id: NodeId,
    pub node_name: String,
    pub hostname: String,
    pub online: bool,
    pub last_seen: Timestamp,
    pub running_tasks: usize,
    pub labels: Vec<String>,
}

/// A task for a worker.
#[derive(Debug)]
pub struct TaskSpec {
    pub run: RunSpec,
}

/// Which task of a job runs on which node.
#[derive(Debug)]
pub struct TaskAssignment {
    pub job_id: JobId,
    pub task_id: TaskId,
    pub node_id: NodeId,
}

impl Clone for TaskAssignment {
    fn clone(&self) -> (r: Self)
        ensures
            r == *self,
    {
        TaskAssignment {
            job_id: self.job_id.clone(),
            task_id: self.task_id.clone(),
            node_id: self.node_id.clone(),
        }
    }
}

/// The event that a task has started.
#[derive(Debug)]
pub struct TaskStarted {
    pub job_id: JobId,
    pub task_id: TaskId,
    pub node_id: NodeId,
    pub pid: Option<u32>,
    pub timestamp: Timestamp,
}

impl Clone for TaskStarted {
    fn clone(&self) -> (r: Self)
        ensures
            r == *self,
    {
        TaskStarted {
            job_id: self.job_id.clone(),
            task_id: self.task_id.clone(),
            node_id: self.node_id.clone(),
            pid: self.pid,
            timestamp: self.timestamp,
        }
    }
}

/// Where a log line comes from.
#[derive(Clone, Copy, Debug, PartialEq, Eq, Structural)]
pub enum LogStream {
    Stdout,
    Stderr,
    System,
}

impl LogStream {
    /// The name of the stream.
    pub open spec fn name(self) -> Seq<char> {
        match self {
            LogStream::Stdout => "stdout"@,
            LogStream::Stderr => "stderr"@,
            LogStream::System => "system"@,
        }
    }

    /// The name of the stream.
    pub fn to_string(&self) -> (s: String)
        ensures
            s@ == self.name(),
    {
        match self {
            LogStream::Stdout => "stdout".to_owned(),
            LogStream::Stderr => "stderr".to_owned(),
            LogStream::System => "system".to_owned(),
        }
    }
}

/// One line of a task's output.
#[derive(Debug)]
pub struct LogLine {
    pub job_id: JobId,
    pub task_id: TaskId,
    pub node_id: NodeId,
    pub stream: LogStream,
    pub timestamp: Timestamp,
    pub line: String,
    pub offset: u64,
}

impl Clone for LogLine {
    fn clone(&self) -> (r: Self)
        ensures
            r == *self,
    {
        LogLine {
            job_id: self.job_id.clone(),
            task_id: self.task_id.clone(),
            node_id: self.node_id.clone(),
            stream: self.stream,
            timestamp: self.timestamp,
            line: self.line.clone(),
            offset: self.offset,
        }
    }
}

/// The event that a task has ended.
#[derive(Debug)]
pub struct TaskExited {
    pub job_id: JobId,
    pub task_id: TaskId,
    pub node_id: NodeId,
    pub exit_code: Option<i32>,
    pub success: bool,
    pub timestamp: Timestamp,
}

impl Clone for TaskExited {
    fn clone(&self) -> (r: Self)
        ensures
            r == *self,
    {
        TaskExited {
            job_id: self.job_id.clone(),
            task_id: self.task_id.clone(),
            node_id: self.node_id.clone(),
            exit_code: self.exit_code,
            success: self.success,
            timestamp: self.timestamp,
        }
    }
}

/// A failure that a worker reports.
#[derive(Debug)]
pub struct WorkerError {
    pub node_id: Option<NodeId>,
    pub task_id: Option<TaskId>,
    pub message: String,
}

impl Clone for WorkerError {
    fn clone(&self) -> (r: Self)
        ensures
            r == *self,
    {
        WorkerError {
            node_id: self.node_id.clone(),
            task_id: self.task_id.clone(),
            message: self.message.clone(),
        }
    }
}

/// What a worker tells the coordinator.
#[derive(Debug)]
pub enum WorkerMessage {
    Register(NodeInfo),
    Heartbeat(NodeHeartbeat),
    TaskStarted(TaskStarted),
    LogLine(LogLine),
    TaskExited(TaskExited),
    Error(WorkerError),
}

/// What the coordinator tells a worker. A policy update carries its JSON text.
#[derive(Debug)]
pub enum CoordinatorMessage {
    StartTask(TaskSpec),
    KillTask(TaskId),
    Ping,
    UpdatePolicy(String),
}

/// What one task of a job has come to.
#[derive(Debug)]
pub struct TaskSummary {
    pub job_id: JobId,
    pub task_id: TaskId,
    pub node_id: NodeId,
    pub status: String,
    pub created_at: Option<Timestamp>,
    pub started_at: Option<Timestamp>,
    pub exited_at: Option<Timestamp>,
    pub exit_code: Option<i32>,
}

/// What a job has come to.
#[derive(Debug)]
pub struct JobSummary {
    pub job_id: JobId,
    pub status: String,
    pub created_at: Option<Timestamp>,
    pub updated_at: Option<Timestamp>,
    pub tasks: Vec<TaskSummary>,
}

/// What the logs of a job point to.
#[derive(Debug)]
pub struct JobDiagnosis {
    pub job_id: JobId,
    pub status: String,
    pub summary: String,
    pub hints: Vec<String>,
    pub recent_errors: Vec<LogLine>,
    pub tasks: Vec<TaskSummary>,
}

/// A reservation of nodes, as a client is told of it.
#[derive(Debug)]
pub struct LeaseSummary {
    pub lease_id: LeaseId,
    pub nodes: Vec<NodeId>,
    pub gpus_per_node: Option<u32>,
    pub exclusive: bool,
    pub created_at: Timestamp,
}

/// A request to run a command on nodes.
#[derive(Debug)]
pub struct RunProcessRequest {
    pub nodes: Vec<NodeId>,
    pub argv: Vec<String>,
    pub cwd: Option<String>,
    pub env: EnvMap,
    pub node_env: Table<EnvMap>,
    pub lease_id: Option<LeaseId>,
    pub timeout: Option<DurationSpec>,
    pub wait: bool,
}

/// A request for the latest jobs.
#[derive(Clone, Debug)]
pub struct ListJobsRequest {
    pub limit: usize,
}

/// A request for the last log lines of a job.
#[derive(Clone, Debug)]
pub struct TailJobRequest {
    pub job_id: JobId,
    pub lines: usize,
}

/// A request to end the tasks of a job.
#[derive(Clone, Debug)]
pub struct KillJobRequest {
    pub job_id: JobId,
}

/// A request for the state of a job.
#[derive(Clone, Debug)]
pub struct JobStatusRequest {
    pub job_id: JobId,
}

/// A request to look into a job.
#[derive(Clone, Debug)]
pub struct DiagnoseJobRequest {
    pub job_id: JobId,
    pub lines: usize,
}

/// A request to reserve nodes.
#[derive(Clone, Debug)]
pub struct CreateLeaseRequest {
    pub nodes: Vec<NodeId>,
    pub count: Option<usize>,
    pub gpus_per_node: Option<u32>,
    pub exclusive: bool,
}

/// A request to give a reservation up.
#[derive(Clone, Debug)]
pub struct ReleaseLeaseRequest {
    pub lease_id: LeaseId,
}

/// The tasks that a run has started.
#[derive(Debug)]
pub struct RunStarted {
    pub job_id: JobId,
    pub tasks: Vec<TaskAssignment>,
}

/// How a job has ended.
#[derive(Debug)]
pub struct JobFinished {
    pub job_id: JobId,
    pub success: bool,
    pub exits: Vec<TaskExited>,
}

/// What a client asks of the coordinator.
#[derive(Debug)]
pub enum ClientRequest {
    ListNodes,
    RunProcess(RunProcessRequest),
    ListJobs(ListJobsRequest),
    TailJob(TailJobRequest),
    KillJob(KillJobRequest),
    JobStatus(JobStatusRequest),
    CreateLease(CreateLeaseRequest),
    ListLeases,
    ReleaseLease(ReleaseLeaseRequest),
    DiagnoseJob(DiagnoseJobRequest),
}

/// What the coordinator answers a client.
#[derive(Debug)]
pub enum ClientResponse {
    Nodes(Vec<NodeSummary>),
    RunStarted(RunStarted),
    TaskStarted(TaskStarted),
    LogLine(LogLine),
    TaskExited(TaskExited),
    JobFinished(JobFinished),
    Jobs(Vec<JobSummary>),
    Job(JobSummary),
    Logs(Vec<LogLine>),
    LeaseCreated(LeaseSummary),
    Leases(Vec<LeaseSummary>),
    JobDiagnosis(JobDiagnosis),
    Error(String),
    Ack,
}

/// One message on the wire.
#[derive(Debug)]
pub enum WireMessage {
    Worker(WorkerMessage),
    Coordinator(CoordinatorMessage),
    ClientRequest(ClientRequest),
    ClientResponse(ClientResponse),
}

/// A plain run has no timeout, no limits on resources, paths or network, may use all devices, and
/// has no sandbox and no secrets; lines of output are cut at sixteen kibibytes.
pub proof fn law_plain_run_has_no_limits(spec: RunSpec)
    ensures
        spec.is_plain() <==> spec.timeout is None && spec.is_unlimited(),
        spec.is_unlimited() ==> {
            &&& spec.resources.cpu_cores is None
            &&& spec.resources.memory_mb is None
            &&& spec.resources.gpu_count is None
            &&& spec.filesystem.workspace is None
            &&& spec.filesystem.read_paths@.len() == 0
            &&& spec.filesystem.write_paths@.len() == 0
            &&& spec.network.mode == NetworkMode::Allow
            &&& spec.network.allow@.len() == 0
            &&& spec.devices.gpu && spec.devices.infiniband
            &&& spec.sandbox.profile@ == "none"@
            &&& spec.secrets@.len() == 0
            &&& spec.log_policy.redact_secrets
            &&& spec.log_policy.max_line_bytes == 16384
        },
{
}

/// The request to start a process names who asks, what is to be started and where, and for which
/// job and task.
pub proof fn law_operation_says_what_is_started(
    operation: OperationRequest,
    spec: RunSpec,
    requested_by: Seq<char>,
)
    requires
        operation.starts(spec, requested_by),
    ensures
        operation.subject.subject_type@ == "agent"@,
        operation.subject.name@ == requested_by,
        operation.subject.session_id is None,
        operation.action@ == "process.start"@,
        operation.resource.node_id == spec.node_id,
        operation.resource.argv@ == spec.argv@,
        operation.resource.cwd@ == spec.cwd@,
        operation.scope.workspace == spec.filesystem.workspace,
        operation.context.requested_by@ == "worker"@,
        operation.context.job_id == spec.job_id,
        operation.context.task_id == spec.task_id,
{
}

/// Streams go by their names.
pub proof fn law_streams_have_their_names(stream: LogStream)
    ensures
        stream == LogStream::Stdout ==> stream.name() == "stdout"@,
        stream == LogStream::Stderr ==> stream.name() == "stderr"@,
        stream == LogStream::System ==> stream.name() == "system"@,
{
}

} // verus!
