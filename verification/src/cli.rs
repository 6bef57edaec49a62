//! What a client asks for each of its commands, and what it makes of the answers.
use vstd::prelude::*;

use crate::coordinator::CoordinatorEvent;
use crate::ids::{JobId, LeaseId};
use crate::protocol::{
    ClientRequest, ClientResponse, CreateLeaseRequest, DiagnoseJobRequest, DurationSpec, EnvMap,
    JobStatusRequest, JobSummary, KillJobRequest, LeaseSummary, ListJobsRequest, NodeSummary,
    ReleaseLeaseRequest, RunProcessRequest, TailJobRequest, WireMessage,
};
use crate::render::Topic;
use crate::runs::WaitView;
use crate::table::Table;
use crate::text::{same, texts};
use crate::torchrun::{named_nodes, node_ids, TorchrunOptions};

verus! {

/// The columns that tell of the graphics processors of a node.
pub const GPU_QUERY: &'static str =
    "--query-gpu=index,name,memory.total,memory.free,memory.used,utilization.gpu,driver_version";

/// The script that tells of the CUDA versions of a node.
pub const CUDA_SCRIPT: &'static str =
    "echo hostname=$(hostname); command -v nvcc >/dev/null 2>&1 && nvcc --version | tail -n 1 || echo nvcc=missing; command -v nvidia-smi >/dev/null 2>&1 && nvidia-smi --query-gpu=driver_version --format=csv,noheader | head -n 1 || echo nvidia-smi=missing";

/// The program that tells of the Torch version of a node.
pub const TORCH_SCRIPT: &'static str =
    "import json, socket\ntry:\n import torch\n print(json.dumps({'hostname': socket.gethostname(), 'torch': torch.__version__, 'cuda_available': torch.cuda.is_available(), 'cuda_version': torch.version.cuda, 'gpu_count': torch.cuda.device_count(), 'devices': [torch.cuda.get_device_name(i) for i in range(torch.cuda.device_count())]}))\nexcept Exception as e:\n print(json.dumps({'hostname': socket.gethostname(), 'torch': 'missing', 'error': str(e)}))";

/// The script that fails unless the graphics processors of a node answer.
pub const GPU_CHECK: &'static str =
    "set -eu; hostname; nvidia-smi -L; nvidia-smi --query-gpu=index,name,memory.free,memory.used,utilization.gpu --format=csv,noheader";

/// The program that fails unless Torch computes on a graphics processor.
pub const TORCH_CHECK: &'static str =
    "import socket, torch\nprint('hostname=' + socket.gethostname())\nprint('torch=' + torch.__version__)\nprint('cuda_available=' + str(torch.cuda.is_available()))\nassert torch.cuda.is_available(), 'torch cuda is not available'\nx=torch.ones((1024,1024), device='cuda')\ny=(x @ x).sum().item()\ntorch.cuda.synchronize()\nprint('cuda_matmul_sum=' + str(y))";

/// The program that fails unless all ranks reduce a number together.
pub const NCCL_CHECK: &'static str =
    "import os, socket, torch, torch.distributed as dist\nbackend='nccl'\ndist.init_process_group(backend=backend)\nrank=dist.get_rank(); world=dist.get_world_size()\ntorch.cuda.set_device(int(os.environ.get('LOCAL_RANK','0')))\nx=torch.ones(1, device='cuda') * (rank + 1)\ndist.all_reduce(x)\nexpected=world*(world+1)/2\nassert int(x.item()) == int(expected), (x.item(), expected)\nprint(f'hostname={socket.gethostname()} rank={rank} world={world} nccl_all_reduce={x.item()}')\ndist.destroy_process_group()";

/// Three words.
fn three_words(a: &str, b: &str, c: &str) -> (r: Vec<String>)
    ensures
        texts(r@) == seq![a@, b@, c@],
{
    let mut r: Vec<String> = Vec::new();
    r.push(a.to_owned());
    r.push(b.to_owned());
    r.push(c.to_owned());
    proof {
        assert(texts(r@) =~= seq![a@, b@, c@]);
    }
    r
}

/// The command that tells of the graphics processors of a node.
pub fn inventory_gpu_argv() -> (r: Vec<String>)
    ensures
        texts(r@) == seq!["nvidia-smi"@, GPU_QUERY@, "--format=csv,noheader"@],
{
    three_words("nvidia-smi", GPU_QUERY, "--format=csv,noheader")
}

/// The command that tells of the CUDA versions of a node.
pub fn inventory_cuda_argv() -> (r: Vec<String>)
    ensures
        texts(r@) == seq!["sh"@, "-lc"@, CUDA_SCRIPT@],
{
    three_words("sh", "-lc", CUDA_SCRIPT)
}

/// The command that tells of the Torch version of a node.
pub fn inventory_torch_argv() -> (r: Vec<String>)
    ensures
        texts(r@) == seq!["python3"@, "-c"@, TORCH_SCRIPT@],
{
    three_words("python3", "-c", TORCH_SCRIPT)
}

/// The command that fails unless the graphics processors of a node answer.
pub fn health_gpu_argv() -> (r: Vec<String>)
    ensures
        texts(r@) == seq!["sh"@, "-lc"@, GPU_CHECK@],
{
    three_words("sh", "-lc", GPU_CHECK)
}

/// The command that fails unless Torch computes on a graphics processor.
pub fn health_torch_argv() -> (r: Vec<String>)
    ensures
        texts(r@) == seq!["python3"@, "-c"@, TORCH_CHECK@],
{
    three_words("python3", "-c", TORCH_CHECK)
}

/// The command that fails unless all ranks reduce a number together.
pub fn nccl_smoke_argv() -> (r: Vec<String>)
    ensures
        texts(r@) == seq!["python3"@, "-c"@, NCCL_CHECK@],
{
    three_words("python3", "-c", NCCL_CHECK)
}

/// What is asked of the inventory.
#[derive(Debug)]
pub enum InventoryCommand {
    Nodes,
    Gpu { nodes: Vec<String> },
    Cuda { nodes: Vec<String> },
    Torch { nodes: Vec<String> },
}

/// What is asked of the health of nodes.
#[derive(Debug)]
pub enum HealthCommand {
    Gpu { nodes: Vec<String> },
    Torch { nodes: Vec<String> },
    Nccl {
        nodes: Vec<String>,
        lease: Option<String>,
        gpus_per_node: u32,
        master_addr: Option<String>,
        master_port: u16,
        cwd: Option<String>,
    },
}

/// What is asked of leases.
#[derive(Debug)]
pub enum LeaseCommand {
    Create {
        nodes: Vec<String>,
        count: Option<usize>,
        gpus_per_node: Option<u32>,
        exclusive: bool,
    },
    List,
    Release { lease_id: String },
}

/// What is asked of jobs.
#[derive(Debug)]
pub enum JobCommand {
    List { limit: usize },
    Tail { job_id: String, lines: usize },
    Kill { job_id: String },
    Status { job_id: String },
    Watch { job_id: String, interval: u64, lines: usize },
    Diagnose { job_id: String, lines: usize },
}

/// A command of the client.
#[derive(Debug)]
pub enum Command {
    Nodes,
    Inventory(InventoryCommand),
    Health(HealthCommand),
    Torchrun(TorchrunOptions),
    Lease(LeaseCommand),
    Job(JobCommand),
    Run {
        nodes: Vec<String>,
        cwd: Option<String>,
        wait: bool,
        timeout_seconds: Option<u64>,
        argv: Vec<String>,
    },
}

/// What a command comes to: nodes or leases or a job's state to fetch and show, a request whose
/// answers are shown by their topic, a launch, or a job to watch.
#[derive(Debug)]
pub enum Plan {
    ShowNodes,
    ShowLeases,
    ShowJob(JobId),
    Ask { request: ClientRequest, topic: Topic },
    Launch(TorchrunOptions),
    Watch(WatchPlan),
}

/// A job to watch: how often to look, and how many log lines to show each time.
#[derive(Debug)]
pub struct WatchPlan {
    pub job_id: JobId,
    pub interval: u64,
    pub lines: usize,
}

/// Whether a request runs a command on nodes, with nothing else asked for but a directory, a
/// timeout and whether to wait.
pub open spec fn is_run(
    request: ClientRequest,
    nodes: Seq<String>,
    argv: Seq<Seq<char>>,
    cwd: Option<String>,
    timeout_seconds: Option<u64>,
    wait: bool,
) -> bool {
    &&& request matches ClientRequest::RunProcess(run)
    &&& run.nodes@ == named_nodes(nodes)
    &&& texts(run.argv@) == argv
    &&& run.cwd == cwd
    &&& run.env@ == Map::<Seq<char>, String>::empty()
    &&& run.node_env@ == Map::<Seq<char>, EnvMap>::empty()
    &&& run.lease_id is None
    &&& run.timeout == (match timeout_seconds {
        Some(seconds) => Some(DurationSpec { seconds }),
        None => None,
    })
    &&& run.wait == wait
}

/// The request that runs a command on nodes.
pub fn run_request(
    nodes: &Vec<String>,
    argv: Vec<String>,
    cwd: Option<String>,
    timeout_seconds: Option<u64>,
    wait: bool,
) -> (r: ClientRequest)
    ensures
        is_run(r, nodes@, texts(argv@), cwd, timeout_seconds, wait),
{
    let timeout = match timeout_seconds {
        Some(seconds) => Some(DurationSpec { seconds }),
        None => None,
    };
    ClientRequest::RunProcess(
        RunProcessRequest {
            nodes: node_ids(nodes),
            argv,
            cwd,
            env: Table::new(),
            node_env: Table::new(),
            lease_id: None,
            timeout,
            wait,
        },
    )
}

/// Whether a plan runs a command on nodes, waits for it and shows how it goes.
pub open spec fn runs(plan: Plan, nodes: Seq<String>, argv: Seq<Seq<char>>) -> bool {
    plan matches Plan::Ask { request, topic } && topic == Topic::Run && is_run(
        request,
        nodes,
        argv,
        None,
        None,
        true,
    )
}

/// The plan that runs a command on nodes, waits for it and shows how it goes.
fn run_and_print(nodes: &Vec<String>, argv: Vec<String>) -> (r: Plan)
    ensures
        runs(r, nodes@, texts(argv@)),
{
    Plan::Ask { request: run_request(nodes, argv, None, None, true), topic: Topic::Run }
}

/// Whether a plan is what an inventory command comes to.
pub open spec fn is_inventory_plan(command: InventoryCommand, r: Plan) -> bool {
    match command {
        InventoryCommand::Nodes => r is ShowNodes,
        InventoryCommand::Gpu { nodes } => runs(
            r,
            nodes@,
            seq!["nvidia-smi"@, GPU_QUERY@, "--format=csv,noheader"@],
        ),
        InventoryCommand::Cuda { nodes } => runs(r, nodes@, seq!["sh"@, "-lc"@, CUDA_SCRIPT@]),
        InventoryCommand::Torch { nodes } => runs(
            r,
            nodes@,
            seq!["python3"@, "-c"@, TORCH_SCRIPT@],
        ),
    }
}

/// What an inventory command comes to.
pub fn handle_inventory(command: InventoryCommand) -> (r: Plan)
    ensures
        is_inventory_plan(command, r),
{
    match command {
        InventoryCommand::Nodes => Plan::ShowNodes,
        InventoryCommand::Gpu { nodes } => run_and_print(&nodes, inventory_gpu_argv()),
        InventoryCommand::Cuda { nodes } => run_and_print(&nodes, inventory_cuda_argv()),
        InventoryCommand::Torch { nodes } => run_and_print(&nodes, inventory_torch_argv()),
    }
}

/// Whether a plan is what a health command comes to.
pub open spec fn is_health_plan(command: HealthCommand, r: Plan) -> bool {
    match command {
        HealthCommand::Gpu { nodes } => runs(r, nodes@, seq!["sh"@, "-lc"@, GPU_CHECK@]),
        HealthCommand::Torch { nodes } => runs(
            r,
            nodes@,
            seq!["python3"@, "-c"@, TORCH_CHECK@],
        ),
        HealthCommand::Nccl { nodes, lease, gpus_per_node, master_addr, master_port, cwd } => {
            &&& r matches Plan::Launch(options)
            &&& options.nodes == nodes
            &&& options.lease == lease
            &&& options.gpus_per_node == gpus_per_node
            &&& options.master_addr == master_addr
            &&& options.master_port == master_port
            &&& options.cwd == cwd
            &&& options.wait
            &&& options.timeout_seconds is None
            &&& texts(options.argv@) == seq!["python3"@, "-c"@, NCCL_CHECK@]
        },
    }
}

/// What a health command comes to. The check of the ranks together is a launch that waits.
pub fn handle_health(command: HealthCommand) -> (r: Plan)
    ensures
        is_health_plan(command, r),
{
    match command {
        HealthCommand::Gpu { nodes } => run_and_print(&nodes, health_gpu_argv()),
        HealthCommand::Torch { nodes } => run_and_print(&nodes, health_torch_argv()),
        HealthCommand::Nccl { nodes, lease, gpus_per_node, master_addr, master_port, cwd } =>
            Plan::Launch(
            TorchrunOptions {
                nodes,
                lease,
                gpus_per_node,
                master_addr,
                master_port,
                cwd,
                wait: true,
                timeout_seconds: None,
                argv: nccl_smoke_argv(),
            },
        ),
    }
}

/// Whether a plan is what a lease command comes to.
pub open spec fn is_lease_plan(command: LeaseCommand, r: Plan) -> bool {
    match command {
        LeaseCommand::Create { nodes, count, gpus_per_node, exclusive } => {
            &&& r matches Plan::Ask { request: ClientRequest::CreateLease(ask), topic }
            &&& topic == Topic::NewLease
            &&& ask.nodes@ == named_nodes(nodes@)
            &&& ask.count == count
            &&& ask.gpus_per_node == gpus_per_node
            &&& ask.exclusive == exclusive
        },
        LeaseCommand::List => r is ShowLeases,
        LeaseCommand::Release { lease_id } => r == (Plan::Ask {
            request: ClientRequest::ReleaseLease(
                ReleaseLeaseRequest { lease_id: LeaseId(lease_id) },
            ),
            topic: Topic::Release,
        }),
    }
}

/// What a lease command comes to.
pub fn handle_lease(command: LeaseCommand) -> (r: Plan)
    ensures
        is_lease_plan(command, r),
{
    match command {
        LeaseCommand::Create { nodes, count, gpus_per_node, exclusive } => Plan::Ask {
            request: ClientRequest::CreateLease(
                CreateLeaseRequest { nodes: node_ids(&nodes), count, gpus_per_node, exclusive },
            ),
            topic: Topic::NewLease,
        },
        LeaseCommand::List => Plan::ShowLeases,
        LeaseCommand::Release { lease_id } => Plan::Ask {
            request: ClientRequest::ReleaseLease(
                ReleaseLeaseRequest { lease_id: LeaseId(lease_id) },
            ),
            topic: Topic::Release,
        },
    }
}

/// What a job command comes to. A job is looked at no more often than once a second.
pub open spec fn job_plan(command: JobCommand) -> Plan {
    match command {
        JobCommand::List { limit } => Plan::Ask {
            request: ClientRequest::ListJobs(ListJobsRequest { limit }),
            topic: Topic::Jobs,
        },
        JobCommand::Tail { job_id, lines } => Plan::Ask {
            request: ClientRequest::TailJob(TailJobRequest { job_id: JobId(job_id), lines }),
            topic: Topic::Logs,
        },
        JobCommand::Kill { job_id } => Plan::Ask {
            request: ClientRequest::KillJob(KillJobRequest { job_id: JobId(job_id) }),
            topic: Topic::Kill,
        },
        JobCommand::Status { job_id } => Plan::ShowJob(JobId(job_id)),
        JobCommand::Watch { job_id, interval, lines } => Plan::Watch(
            WatchPlan {
                job_id: JobId(job_id),
                interval: if interval < 1 {
                    1
                } else {
                    interval
                },
                lines,
            },
        ),
        JobCommand::Diagnose { job_id, lines } => Plan::Ask {
            request: ClientRequest::DiagnoseJob(
                DiagnoseJobRequest { job_id: JobId(job_id), lines },
            ),
            topic: Topic::Diagnosis,
        },
    }
}

/// What a job command comes to.
pub fn handle_job(command: JobCommand) -> (r: Plan)
    ensures
        r == job_plan(command),
{
    match command {
        JobCommand::List { limit } => Plan::Ask {
            request: ClientRequest::ListJobs(ListJobsRequest { limit }),
            topic: Topic::Jobs,
        },
        JobCommand::Tail { job_id, lines } => Plan::Ask {
            request: ClientRequest::TailJob(TailJobRequest { job_id: JobId(job_id), lines }),
            topic: Topic::Logs,
        },
        JobCommand::Kill { job_id } => Plan::Ask {
            request: ClientRequest::KillJob(KillJobRequest { job_id: JobId(job_id) }),
            topic: Topic::Kill,
        },
        JobCommand::Status { job_id } => Plan::ShowJob(JobId(job_id)),
        JobCommand::Watch { job_id, interval, lines } => Plan::Watch(
            WatchPlan {
                job_id: JobId(job_id),
                interval: if interval < 1 {
                    1
                } else {
                    interval
                },
                lines,
            },
        ),
        JobCommand::Diagnose { job_id, lines } => Plan::Ask {
            request: ClientRequest::DiagnoseJob(
                DiagnoseJobRequest { job_id: JobId(job_id), lines },
            ),
            topic: Topic::Diagnosis,
        },
    }
}

/// Whether a plan is what a command comes to.
pub open spec fn is_command_plan(command: Command, r: Plan) -> bool {
    match command {
        Command::Nodes => r is ShowNodes,
        Command::Inventory(inventory) => is_inventory_plan(inventory, r),
        Command::Health(health) => is_health_plan(health, r),
        Command::Torchrun(options) => r == Plan::Launch(options),
        Command::Lease(lease) => is_lease_plan(lease, r),
        Command::Job(job) => r == job_plan(job),
        Command::Run { nodes, cwd, wait, timeout_seconds, argv } => {
            &&& r matches Plan::Ask { request, topic }
            &&& topic == Topic::Run
            &&& is_run(request, nodes@, texts(argv@), cwd, timeout_seconds, wait)
        },
    }
}

/// What a command comes to.
pub fn plan(command: Command) -> (r: Plan)
    ensures
        is_command_plan(command, r),
{
    match command {
        Command::Nodes => Plan::ShowNodes,
        Command::Inventory(inventory) => handle_inventory(inventory),
        Command::Health(health) => handle_health(health),
        Command::Torchrun(options) => Plan::Launch(options),
        Command::Lease(lease) => handle_lease(lease),
        Command::Job(job) => handle_job(job),
        Command::Run { nodes, cwd, wait, timeout_seconds, argv } => Plan::Ask {
            request: run_request(&nodes, argv, cwd, timeout_seconds, wait),
            topic: Topic::Run,
        },
    }
}

/// The request for the log lines that are shown of a job that is watched, if any are.
pub fn watch_tail(plan: &WatchPlan) -> (r: Option<ClientRequest>)
    ensures
        r == (if plan.lines > 0 {
            Some(
                ClientRequest::TailJob(TailJobRequest { job_id: plan.job_id, lines: plan.lines }),
            )
        } else {
            None
        }),
{
    if plan.lines > 0 {
        Some(
            ClientRequest::TailJob(
                TailJobRequest { job_id: plan.job_id.clone(), lines: plan.lines },
            ),
        )
    } else {
        None
    }
}

/// Whether a job that is watched is looked at again: as long as it runs.
pub fn watch_goes_on(job: &JobSummary) -> (r: bool)
    ensures
        r == (job.status@ == "running"@),
{
    same(job.status.as_str(), "running")
}

/// The request for the state of a job.
pub fn job_status_request(job_id: &JobId) -> (r: ClientRequest)
    ensures
        r == ClientRequest::JobStatus(JobStatusRequest { job_id: *job_id }),
{
    ClientRequest::JobStatus(JobStatusRequest { job_id: job_id.clone() })
}

/// Whether no answer comes after this one.
pub open spec fn is_last(response: ClientResponse) -> bool {
    !(response is RunStarted || response is TaskStarted || response is LogLine
        || response is TaskExited)
}

/// Takes a message of the coordinator in; says whether no more is to come. What is no answer is
/// passed over.
pub fn take_message(responses: &mut Vec<ClientResponse>, message: WireMessage) -> (r: bool)
    ensures
        match message {
            WireMessage::ClientResponse(response) => final(responses)@ == old(responses)@.push(
                response,
            ) && r == is_last(response),
            _ => final(responses)@ == old(responses)@ && !r,
        },
{
    match message {
        WireMessage::ClientResponse(response) => {
            let done = match &response {
                ClientResponse::RunStarted(_) => false,
                ClientResponse::TaskStarted(_) => false,
                ClientResponse::LogLine(_) => false,
                ClientResponse::TaskExited(_) => false,
                _ => true,
            };
            responses.push(response);
            done
        },
        _ => false,
    }
}

/// What a fetch is after.
#[derive(Clone, Copy, Debug, PartialEq, Eq, Structural)]
pub enum Wanted {
    Nodes,
    Job,
    Leases,
}

/// Whether an answer decides a fetch: it is what the fetch is after, or an error.
pub open spec fn decides(wanted: Wanted, response: ClientResponse) -> bool {
    match response {
        ClientResponse::Error(_) => true,
        ClientResponse::Nodes(_) => wanted == Wanted::Nodes,
        ClientResponse::Job(_) => wanted == Wanted::Job,
        ClientResponse::Leases(_) => wanted == Wanted::Leases,
        _ => false,
    }
}

/// Whether the answer at a position is the first that decides a fetch.
pub open spec fn decides_first(wanted: Wanted, responses: Seq<ClientResponse>, i: int) -> bool {
    &&& 0 <= i < responses.len()
    &&& decides(wanted, responses[i])
    &&& forall|k: int| 0 <= k < i ==> !decides(wanted, #[trigger] responses[k])
}

/// Whether no answer decides a fetch.
pub open spec fn undecided(wanted: Wanted, responses: Seq<ClientResponse>) -> bool {
    forall|k: int| 0 <= k < responses.len() ==> !decides(wanted, #[trigger] responses[k])
}

/// Whether an answer is the first that decides a fetch.
pub open spec fn is_answer(
    wanted: Wanted,
    responses: Seq<ClientResponse>,
    response: ClientResponse,
) -> bool {
    exists|i: int| #[trigger] decides_first(wanted, responses, i) && responses[i] == response
}

/// The first answer that decides a fetch.
fn first_answer(wanted: Wanted, responses: Vec<ClientResponse>) -> (r: Option<ClientResponse>)
    ensures
        match r {
            Some(response) => decides(wanted, response) && is_answer(
                wanted,
                responses@,
                response,
            ),
            None => undecided(wanted, responses@),
        },
{
    let mut rest = responses;
    let n = rest.len();
    for i in 0..n
        invariant
            rest@ == responses@,
            n == rest@.len(),
            forall|k: int| 0 <= k < i ==> !decides(wanted, #[trigger] rest@[k]),
    {
        let found = match &rest[i] {
            ClientResponse::Error(_) => true,
            ClientResponse::Nodes(_) => wanted == Wanted::Nodes,
            ClientResponse::Job(_) => wanted == Wanted::Job,
            ClientResponse::Leases(_) => wanted == Wanted::Leases,
            _ => false,
        };
        if found {
            proof {
                assert(decides_first(wanted, responses@, i as int));
            }
            return Some(rest.remove(i));
        }
    }
    None
}

/// The nodes among answers; without any there are none.
pub fn fetch_nodes(responses: Vec<ClientResponse>) -> (r: Result<Vec<NodeSummary>, String>)
    ensures
        match r {
            Ok(nodes) => is_answer(Wanted::Nodes, responses@, ClientResponse::Nodes(nodes)) || (
            undecided(Wanted::Nodes, responses@) && nodes@.len() == 0),
            Err(message) => is_answer(Wanted::Nodes, responses@, ClientResponse::Error(message)),
        },
{
    match first_answer(Wanted::Nodes, responses) {
        Some(ClientResponse::Nodes(nodes)) => Ok(nodes),
        Some(ClientResponse::Error(message)) => Err(message),
        _ => Ok(Vec::new()),
    }
}

/// The job among answers.
pub fn fetch_job(responses: Vec<ClientResponse>) -> (r: Result<JobSummary, String>)
    ensures
        match r {
            Ok(job) => is_answer(Wanted::Job, responses@, ClientResponse::Job(job)),
            Err(message) => is_answer(Wanted::Job, responses@, ClientResponse::Error(message)) || (
            undecided(Wanted::Job, responses@) && message@
                == "coordinator did not return a job status"@),
        },
{
    match first_answer(Wanted::Job, responses) {
        Some(ClientResponse::Job(job)) => Ok(job),
        Some(ClientResponse::Error(message)) => Err(message),
        _ => Err("coordinator did not return a job status".to_owned()),
    }
}

/// The leases among answers; without any there are none.
pub fn fetch_leases(responses: Vec<ClientResponse>) -> (r: Result<Vec<LeaseSummary>, String>)
    ensures
        match r {
            Ok(leases) => is_answer(Wanted::Leases, responses@, ClientResponse::Leases(leases)) || (
            undecided(Wanted::Leases, responses@) && leases@.len() == 0),
            Err(message) => is_answer(Wanted::Leases, responses@, ClientResponse::Error(message)),
        },
{
    match first_answer(Wanted::Leases, responses) {
        Some(ClientResponse::Leases(leases)) => Ok(leases),
        Some(ClientResponse::Error(message)) => Err(message),
        _ => Ok(Vec::new()),
    }
}

/// What a client is told of a task's start, output or end is not the last answer to its run; the
/// end of the job is, and so is a worker's failure.
pub proof fn law_only_job_end_and_errors_end_a_run(
    wait: WaitView,
    event: CoordinatorEvent,
    response: ClientResponse,
)
    requires
        wait.tells(event) == Some(response),
    ensures
        is_last(response) <==> event is Error,
{
}

/// A run that the client asks for is on the named nodes, with the words, directory, waiting and
/// timeout that are asked for, and without variables or a lease.
pub proof fn law_run_request_asks_for_what_is_given(
    request: ClientRequest,
    nodes: Seq<String>,
    argv: Seq<Seq<char>>,
    cwd: Option<String>,
    timeout_seconds: Option<u64>,
    wait: bool,
    i: int,
)
    requires
        is_run(request, nodes, argv, cwd, timeout_seconds, wait),
    ensures
        request matches ClientRequest::RunProcess(run) && {
            &&& run.nodes@.len() == nodes.len()
            &&& 0 <= i < nodes.len() ==> run.nodes@[i]@ == nodes[i]@
            &&& run.argv@.len() == argv.len()
            &&& 0 <= i < argv.len() ==> run.argv@[i]@ == argv[i]
            &&& run.cwd == cwd
            &&& run.wait == wait
            &&& timeout_seconds is None ==> run.timeout is None
            &&& timeout_seconds matches Some(seconds) ==> run.timeout is Some
                && run.timeout->0.seconds == seconds
            &&& run.lease_id is None
            &&& forall|name: Seq<char>| !#[trigger] run.env@.contains_key(name)
            &&& forall|name: Seq<char>| !#[trigger] run.node_env@.contains_key(name)
        },
{
    match request {
        ClientRequest::RunProcess(run) => {
            assert(named_nodes(nodes).len() == nodes.len());
            assert(texts(run.argv@).len() == run.argv@.len());
            if 0 <= i < argv.len() {
                assert(texts(run.argv@)[i] == run.argv@[i]@);
            }
        },
        _ => {},
    }
}

/// Whether a plan runs words on nodes and waits for them.
pub open spec fn asks_to_run(plan: Plan, nodes: Seq<String>, words: Seq<Seq<char>>) -> bool {
    plan matches Plan::Ask { request, topic } && topic == Topic::Run && is_run(
        request,
        nodes,
        words,
        None,
        None,
        true,
    )
}

/// What each command comes to: nodes, leases and a job's state are fetched and shown; checks are
/// run on the named nodes and waited for; launches and runs are as they are asked for.
pub proof fn law_commands_come_to_what_they_say(command: Command, r: Plan)
    requires
        is_command_plan(command, r),
    ensures
        match command {
            Command::Nodes => r is ShowNodes,
            Command::Inventory(InventoryCommand::Nodes) => r is ShowNodes,
            Command::Inventory(InventoryCommand::Gpu { nodes }) => asks_to_run(
                r,
                nodes@,
                seq!["nvidia-smi"@, GPU_QUERY@, "--format=csv,noheader"@],
            ),
            Command::Inventory(InventoryCommand::Cuda { nodes }) => asks_to_run(
                r,
                nodes@,
                seq!["sh"@, "-lc"@, CUDA_SCRIPT@],
            ),
            Command::Inventory(InventoryCommand::Torch { nodes }) => asks_to_run(
                r,
                nodes@,
                seq!["python3"@, "-c"@, TORCH_SCRIPT@],
            ),
            Command::Health(HealthCommand::Gpu { nodes }) => asks_to_run(
                r,
                nodes@,
                seq!["sh"@, "-lc"@, GPU_CHECK@],
            ),
            Command::Health(HealthCommand::Torch { nodes }) => asks_to_run(
                r,
                nodes@,
                seq!["python3"@, "-c"@, TORCH_CHECK@],
            ),
            Command::Health(
                HealthCommand::Nccl { nodes, lease, gpus_per_node, master_addr, master_port, cwd },
            ) => r matches Plan::Launch(options) && options.nodes == nodes && options.lease == lease
                && options.gpus_per_node == gpus_per_node && options.master_addr == master_addr
                && options.master_port == master_port && options.cwd == cwd && options.wait
                && options.timeout_seconds is None && texts(options.argv@) == seq![
                "python3"@,
                "-c"@,
                NCCL_CHECK@,
            ],
            Command::Torchrun(options) => r == Plan::Launch(options),
            Command::Lease(LeaseCommand::List) => r is ShowLeases,
            Command::Lease(
                LeaseCommand::Create { nodes, count, gpus_per_node, exclusive },
            ) => r matches Plan::Ask { request: ClientRequest::CreateLease(ask), topic } && topic
                == Topic::NewLease && ask.nodes@.len() == nodes@.len() && (forall|i: int|
                0 <= i < nodes@.len() ==> (#[trigger] ask.nodes@[i])@ == nodes@[i]@) && ask.count
                == count && ask.gpus_per_node == gpus_per_node && ask.exclusive == exclusive,
            Command::Lease(LeaseCommand::Release { lease_id }) => r matches Plan::Ask {
                request: ClientRequest::ReleaseLease(ask),
                topic,
            } && topic == Topic::Release && ask.lease_id@ == lease_id@,
            Command::Job(JobCommand::List { limit }) => r matches Plan::Ask {
                request: ClientRequest::ListJobs(ask),
                topic,
            } && topic == Topic::Jobs && ask.limit == limit,
            Command::Job(JobCommand::Tail { job_id, lines }) => r matches Plan::Ask {
                request: ClientRequest::TailJob(ask),
                topic,
            } && topic == Topic::Logs && ask.job_id@ == job_id@ && ask.lines == lines,
            Command::Job(JobCommand::Kill { job_id }) => r matches Plan::Ask {
                request: ClientRequest::KillJob(ask),
                topic,
            } && topic == Topic::Kill && ask.job_id@ == job_id@,
            Command::Job(JobCommand::Status { job_id }) => r matches Plan::ShowJob(id) && id@
                == job_id@,
            Command::Job(JobCommand::Watch { job_id, interval, lines }) => r matches Plan::Watch(
                watch,
            ) && watch.job_id@ == job_id@ && watch.lines == lines && watch.interval >= 1 && (
            interval >= 1 ==> watch.interval == interval),
            Command::Job(JobCommand::Diagnose { job_id, lines }) => r matches Plan::Ask {
                request: ClientRequest::DiagnoseJob(ask),
                topic,
            } && topic == Topic::Diagnosis && ask.job_id@ == job_id@ && ask.lines == lines,
            Command::Run { nodes, cwd, wait, timeout_seconds, argv } => r matches Plan::Ask {
                request,
                topic,
            } && topic == Topic::Run && is_run(
                request,
                nodes@,
                texts(argv@),
                cwd,
                timeout_seconds,
                wait,
            ),
        },
{
    match command {
        Command::Lease(LeaseCommand::Create { nodes, .. }) => {
            assert(named_nodes(nodes@).len() == nodes@.len());
        },
        _ => {},
    }
}

/// A client goes on listening after the start of a run or a task, a line of output and the end of
/// a task, and after nothing else.
pub proof fn law_last_answers(response: ClientResponse)
    ensures
        is_last(response) <==> !(response is RunStarted) && !(response is TaskStarted) && !(
        response is LogLine) && !(response is TaskExited),
{
}

/// A fetch is answered by the first answer that is what it is after or an error.
pub proof fn law_fetch_takes_the_first_answer(
    wanted: Wanted,
    responses: Seq<ClientResponse>,
    response: ClientResponse,
)
    ensures
        is_answer(wanted, responses, response) ==> exists|i: int|
            0 <= i < responses.len() && #[trigger] responses[i] == response && (response is Error
                || fits(wanted, response)) && forall|k: int|
                0 <= k < i ==> !((#[trigger] responses[k]) is Error) && !fits(wanted, responses[k]),
        undecided(wanted, responses) ==> forall|k: int|
            0 <= k < responses.len() ==> !((#[trigger] responses[k]) is Error) && !fits(
                wanted,
                responses[k],
            ),
{
    if is_answer(wanted, responses, response) {
        let i = choose|i: int| #[trigger]
            decides_first(wanted, responses, i) && responses[i] == response;
        assert forall|k: int| 0 <= k < i implies !((#[trigger] responses[k]) is Error) && !fits(
            wanted,
            responses[k],
        ) by {
            assert(!decides(wanted, responses[k]));
        }
    }
    if undecided(wanted, responses) {
        assert forall|k: int| 0 <= k < responses.len() implies !((#[trigger] responses[k])
            is Error) && !fits(wanted, responses[k]) by {
            assert(!decides(wanted, responses[k]));
        }
    }
}

/// Whether an answer is what a fetch is after.
pub open spec fn fits(wanted: Wanted, response: ClientResponse) -> bool {
    ||| wanted == Wanted::Nodes && response is Nodes
    ||| wanted == Wanted::Job && response is Job
    ||| wanted == Wanted::Leases && response is Leases
}

} // verus!
