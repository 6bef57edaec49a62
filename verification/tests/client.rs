use multinode_controller::cli::{
    fetch_job, fetch_leases, fetch_nodes, handle_health, handle_inventory, handle_job, handle_lease,
    health_torch_argv, inventory_cuda_argv, inventory_gpu_argv, inventory_torch_argv,
    job_status_request, nccl_smoke_argv, plan, run_request, take_message, watch_goes_on, watch_tail,
    Command, HealthCommand, InventoryCommand, JobCommand, LeaseCommand, Plan,
};
use multinode_controller::ids::{JobId, LeaseId, NodeId, TaskId};
use multinode_controller::summaries::job_summary;
use multinode_controller::protocol::{
    ClientRequest, ClientResponse, CoordinatorMessage, JobDiagnosis, JobFinished, LeaseSummary,
    LogLine, LogStream, NodeSummary, RunProcessRequest, RunStarted, TaskAssignment, TaskExited,
    TaskStarted, TaskSummary, WireMessage,
};
use multinode_controller::render::{
    print_job_diagnosis, print_job_status, print_leases, print_nodes, print_responses, End, Topic,
};
use multinode_controller::time::Timestamp;
use multinode_controller::torchrun::{
    default_master_addr, lease_nodes, listed_nodes, torchrun_request_parts, Targets,
    TorchrunOptions,
};

fn at(secs: i64) -> Timestamp {
    Timestamp::from_parts(secs, 0).unwrap()
}

fn words(parts: &[&str]) -> Vec<String> {
    parts.iter().map(|part| (*part).to_owned()).collect()
}

fn nodes(parts: &[&str]) -> Vec<NodeId> {
    parts.iter().map(|part| NodeId::from(*part)).collect()
}

fn summary(name: &str, host: &str) -> NodeSummary {
    NodeSummary {
        node_id: NodeId::from(name),
        node_name: name.to_owned(),
        hostname: host.to_owned(),
        online: true,
        last_seen: at(0),
        running_tasks: 2,
        labels: Vec::new(),
    }
}

fn lease(id: &str, names: &[&str]) -> LeaseSummary {
    LeaseSummary {
        lease_id: LeaseId::from(id),
        nodes: nodes(names),
        gpus_per_node: None,
        exclusive: true,
        created_at: at(0),
    }
}

fn task(status: &str, exit_code: Option<i32>) -> TaskSummary {
    TaskSummary {
        job_id: JobId::from("job_1"),
        task_id: TaskId::from("task_1"),
        node_id: NodeId::from("node-a"),
        status: status.to_owned(),
        created_at: Some(at(0)),
        started_at: None,
        exited_at: None,
        exit_code,
    }
}

fn log(text: &str) -> LogLine {
    LogLine {
        job_id: JobId::from("job_1"),
        task_id: TaskId::from("task_1"),
        node_id: NodeId::from("node-a"),
        stream: LogStream::Stderr,
        timestamp: at(0),
        line: text.to_owned(),
        offset: 0,
    }
}

fn options(names: &[&str], lease: Option<&str>) -> TorchrunOptions {
    TorchrunOptions {
        nodes: words(names),
        lease: lease.map(str::to_owned),
        gpus_per_node: 8,
        master_addr: None,
        master_port: 29500,
        cwd: Some("/work".to_owned()),
        wait: false,
        timeout_seconds: Some(60),
        argv: words(&["python", "it's.py"]),
    }
}

fn run_of(plan: Plan) -> RunProcessRequest {
    match plan {
        Plan::Ask { request: ClientRequest::RunProcess(run), topic: Topic::Run } => run,
        other => panic!("{other:?}"),
    }
}

#[test]
fn inventory_runs_its_commands() {
    assert!(matches!(handle_inventory(InventoryCommand::Nodes), Plan::ShowNodes));
    let run = run_of(handle_inventory(InventoryCommand::Gpu { nodes: words(&["node-a"]) }));
    assert_eq!(run.nodes, nodes(&["node-a"]));
    assert_eq!(run.argv, inventory_gpu_argv());
    assert_eq!(run.argv[0], "nvidia-smi");
    assert_eq!(run.argv[2], "--format=csv,noheader");
    assert!(run.wait && run.timeout.is_none() && run.lease_id.is_none() && run.cwd.is_none());
    let run = run_of(handle_inventory(InventoryCommand::Cuda { nodes: Vec::new() }));
    assert_eq!(run.argv, inventory_cuda_argv());
    assert!(run.argv[2].ends_with("|| echo nvidia-smi=missing"));
    let run = run_of(handle_inventory(InventoryCommand::Torch { nodes: Vec::new() }));
    assert_eq!(run.argv, inventory_torch_argv());
    assert_eq!(&run.argv[..2], &words(&["python3", "-c"])[..]);
}

#[test]
fn health_runs_its_checks() {
    let run = run_of(handle_health(HealthCommand::Gpu { nodes: Vec::new() }));
    assert!(run.argv[2].starts_with("set -eu; hostname; nvidia-smi -L;"));
    let run = run_of(handle_health(HealthCommand::Torch { nodes: Vec::new() }));
    assert_eq!(run.argv, health_torch_argv());
    let launch = handle_health(HealthCommand::Nccl {
        nodes: words(&["node-a"]),
        lease: Some("lease_1".to_owned()),
        gpus_per_node: 4,
        master_addr: Some("m".to_owned()),
        master_port: 1,
        cwd: None,
    });
    match launch {
        Plan::Launch(options) => {
            assert_eq!(options.argv, nccl_smoke_argv());
            assert_eq!(options.gpus_per_node, 4);
            assert!(options.wait);
            assert_eq!(options.timeout_seconds, None);
            assert_eq!(options.lease.as_deref(), Some("lease_1"));
        }
        other => panic!("{other:?}"),
    }
}

#[test]
fn lease_and_job_commands_ask() {
    match handle_lease(LeaseCommand::Create {
        nodes: words(&["node-a"]),
        count: Some(2),
        gpus_per_node: Some(8),
        exclusive: false,
    }) {
        Plan::Ask { request: ClientRequest::CreateLease(ask), topic: Topic::NewLease } => {
            assert_eq!(ask.nodes, nodes(&["node-a"]));
            assert_eq!(ask.count, Some(2));
            assert_eq!(ask.gpus_per_node, Some(8));
            assert!(!ask.exclusive);
        }
        other => panic!("{other:?}"),
    }
    assert!(matches!(handle_lease(LeaseCommand::List), Plan::ShowLeases));
    assert!(matches!(
        handle_lease(LeaseCommand::Release { lease_id: "lease_1".to_owned() }),
        Plan::Ask { request: ClientRequest::ReleaseLease(ask), topic: Topic::Release }
            if ask.lease_id.as_str() == "lease_1"
    ));
    let job = || "job_1".to_owned();
    assert!(matches!(
        handle_job(JobCommand::List { limit: 20 }),
        Plan::Ask { request: ClientRequest::ListJobs(ask), topic: Topic::Jobs } if ask.limit == 20
    ));
    assert!(matches!(
        handle_job(JobCommand::Tail { job_id: job(), lines: 5 }),
        Plan::Ask { request: ClientRequest::TailJob(ask), topic: Topic::Logs } if ask.lines == 5
    ));
    assert!(matches!(
        handle_job(JobCommand::Kill { job_id: job() }),
        Plan::Ask { request: ClientRequest::KillJob(_), topic: Topic::Kill }
    ));
    assert!(matches!(handle_job(JobCommand::Status { job_id: job() }), Plan::ShowJob(id) if id.as_str() == "job_1"));
    assert!(matches!(
        handle_job(JobCommand::Diagnose { job_id: job(), lines: 9 }),
        Plan::Ask { request: ClientRequest::DiagnoseJob(ask), topic: Topic::Diagnosis } if ask.lines == 9
    ));
    assert!(matches!(
        job_status_request(&JobId::from("job_1")),
        ClientRequest::JobStatus(ask) if ask.job_id.as_str() == "job_1"
    ));
}

#[test]
fn watch_looks_at_most_once_a_second() {
    let watch = |interval: u64, lines: usize| match handle_job(JobCommand::Watch {
        job_id: "job_1".to_owned(),
        interval,
        lines,
    }) {
        Plan::Watch(watch) => watch,
        other => panic!("{other:?}"),
    };
    assert_eq!(watch(0, 0).interval, 1);
    assert_eq!(watch(7, 0).interval, 7);
    assert!(watch_tail(&watch(1, 0)).is_none());
    assert!(matches!(
        watch_tail(&watch(1, 3)),
        Some(ClientRequest::TailJob(ask)) if ask.lines == 3
    ));
    assert!(watch_goes_on(&job_summary(vec![task("queued", None)])));
    assert!(!watch_goes_on(&job_summary(vec![task("succeeded", None)])));
    assert!(!watch_goes_on(&job_summary(vec![task("failed", None)])));
}

#[test]
fn run_command_asks_for_a_run() {
    let request = run_request(
        &words(&["node-a", "node-b"]),
        words(&["hostname"]),
        Some("/w".to_owned()),
        Some(30),
        false,
    );
    match request {
        ClientRequest::RunProcess(run) => {
            assert_eq!(run.nodes, nodes(&["node-a", "node-b"]));
            assert_eq!(run.argv, words(&["hostname"]));
            assert_eq!(run.cwd.as_deref(), Some("/w"));
            assert_eq!(run.timeout.unwrap().seconds, 30);
            assert!(!run.wait);
            assert_eq!(run.env.len() + run.node_env.len(), 0);
        }
        other => panic!("{other:?}"),
    }
}

#[test]
fn launch_takes_named_nodes_then_the_lease_then_all() {
    assert!(matches!(
        options(&["node-b"], Some("lease_1")).targets(),
        Targets::Given(given) if given == nodes(&["node-b"])
    ));
    assert!(matches!(
        options(&[], Some("lease_1")).targets(),
        Targets::OfLease(lease) if lease == "lease_1"
    ));
    assert!(matches!(options(&[], None).targets(), Targets::All));
    let leases = vec![lease("lease_0", &["x"]), lease("lease_1", &["a", "b"])];
    assert_eq!(lease_nodes(&leases, "lease_1").unwrap(), nodes(&["a", "b"]));
    assert_eq!(lease_nodes(&leases, "lease_2").unwrap_err(), "lease lease_2 was not found");
    assert_eq!(listed_nodes(&vec![summary("n1", "h1"), summary("n2", "h2")]), nodes(&["n1", "n2"]));
}

#[test]
fn first_node_gives_the_master_address() {
    let summaries = vec![summary("n1", "h1"), summary("n2", "h2"), summary("n2", "h3")];
    assert_eq!(default_master_addr(&nodes(&["n2", "n1"]), &summaries), "h2");
    assert_eq!(default_master_addr(&nodes(&["n9"]), &summaries), "n9");
    assert_eq!(default_master_addr(&Vec::new(), &summaries), "127.0.0.1");
}

#[test]
fn launch_gives_each_node_its_rank() {
    let (argv, env) =
        torchrun_request_parts(&nodes(&["n1", "n2"]), 8, "it's", 29500, &words(&["python", "a b.py"]));
    assert_eq!(&argv[..2], &words(&["sh", "-lc"])[..]);
    assert_eq!(
        argv[2],
        "exec torchrun --nnodes 2 --nproc-per-node 8 --node-rank \"$ML_NODE_RANK\" --master-addr 'it'\\''s' --master-port 29500 'python' 'a b.py'"
    );
    assert_eq!(env.len(), 2);
    let second = env.get("n2").unwrap();
    assert_eq!(second.get("ML_NODE_RANK").unwrap(), "1");
    assert_eq!(second.get("ML_NNODES").unwrap(), "2");
    assert_eq!(second.get("ML_GPUS_PER_NODE").unwrap(), "8");
    assert_eq!(second.get("ML_MASTER_ADDR").unwrap(), "it's");
    assert_eq!(second.get("ML_MASTER_PORT").unwrap(), "29500");
    assert_eq!(second.len(), 5);
    assert_eq!(env.get("n1").unwrap().get("ML_NODE_RANK").unwrap(), "0");
    let (argv, env) = torchrun_request_parts(&Vec::new(), 1, "m", 1, &Vec::new());
    assert!(argv[2].starts_with("exec torchrun --nnodes 1 "));
    assert!(argv[2].ends_with(" --master-port 1 "));
    assert_eq!(env.len(), 0);
    let (_, twice) = torchrun_request_parts(&nodes(&["n1", "n1"]), 1, "m", 1, &Vec::new());
    assert_eq!(twice.get("n1").unwrap().get("ML_NODE_RANK").unwrap(), "1");
}

#[test]
fn launch_becomes_a_run() {
    let run = options(&[], Some("lease_1")).request(nodes(&["n1"]), &vec![summary("n1", "h1")]);
    assert_eq!(run.nodes, nodes(&["n1"]));
    assert!(run.argv[2].contains("--master-addr 'h1'"));
    assert_eq!(run.cwd.as_deref(), Some("/work"));
    assert_eq!(run.lease_id.unwrap().as_str(), "lease_1");
    assert_eq!(run.timeout.unwrap().seconds, 60);
    assert!(!run.wait);
    let mut given = options(&[], None);
    given.master_addr = Some("m".to_owned());
    given.timeout_seconds = None;
    let run = given.request(nodes(&["n1"]), &Vec::new());
    assert!(run.argv[2].contains("--master-addr 'm'"));
    assert!(run.lease_id.is_none() && run.timeout.is_none());
}

#[test]
fn answers_are_read_up_to_the_last() {
    let mut responses = Vec::new();
    let wire = |response: ClientResponse| WireMessage::ClientResponse(response);
    assert!(!take_message(&mut responses, WireMessage::Coordinator(CoordinatorMessage::Ping)));
    assert!(responses.is_empty());
    assert!(!take_message(&mut responses, wire(ClientResponse::LogLine(log("x")))));
    assert!(take_message(&mut responses, wire(ClientResponse::Ack)));
    assert_eq!(responses.len(), 2);
    for last in [
        ClientResponse::Nodes(Vec::new()),
        ClientResponse::Jobs(Vec::new()),
        ClientResponse::Logs(Vec::new()),
        ClientResponse::Leases(Vec::new()),
        ClientResponse::Error("x".to_owned()),
    ] {
        assert!(take_message(&mut responses, wire(last)));
    }
}

#[test]
fn fetches_take_the_first_answer_that_decides() {
    let found = fetch_nodes(vec![
        ClientResponse::Ack,
        ClientResponse::Nodes(vec![summary("n1", "h1")]),
        ClientResponse::Error("late".to_owned()),
    ]);
    assert_eq!(found.unwrap()[0].hostname, "h1");
    let failed = fetch_nodes(vec![
        ClientResponse::Error("early".to_owned()),
        ClientResponse::Nodes(Vec::new()),
    ]);
    assert_eq!(failed.unwrap_err(), "early");
    assert!(fetch_nodes(vec![ClientResponse::Ack]).unwrap().is_empty());
    assert!(fetch_leases(Vec::new()).unwrap().is_empty());
    let leases = fetch_leases(vec![ClientResponse::Leases(vec![lease("lease_1", &[])])]);
    assert_eq!(leases.unwrap().len(), 1);
    let job = fetch_job(vec![ClientResponse::Job(job_summary(vec![task("failed", None)]))]);
    assert_eq!(job.unwrap().status, "failed");
    assert_eq!(
        fetch_job(vec![ClientResponse::Ack]).unwrap_err(),
        "coordinator did not return a job status"
    );
}

#[test]
fn nodes_and_leases_are_shown_in_tables() {
    assert_eq!(print_nodes(&Vec::new()), vec!["no workers connected"]);
    assert_eq!(
        print_nodes(&vec![summary("n1", "h1")]),
        vec!["NODE\tHOSTNAME\tONLINE\tTASKS\tLAST_SEEN", "n1\th1\ttrue\t2\t1970-01-01T00:00:00+00:00"]
    );
    assert_eq!(print_leases(&Vec::new()), vec!["no active leases"]);
    let mut second = lease("lease_2", &[]);
    second.gpus_per_node = Some(4);
    second.exclusive = false;
    assert_eq!(
        print_leases(&vec![lease("lease_1", &["a", "b"]), second]),
        vec![
            "LEASE\tNODES\tGPUS_PER_NODE\tEXCLUSIVE\tCREATED",
            "lease_1\ta,b\t-\ttrue\t1970-01-01T00:00:00+00:00",
            "lease_2\t\t4\tfalse\t1970-01-01T00:00:00+00:00",
        ]
    );
}

#[test]
fn state_of_a_job_is_shown_with_its_tasks() {
    let job = job_summary(vec![task("failed", Some(-9)), task("queued", None)]);
    assert_eq!(
        print_job_status(&job),
        vec![
            "JOB\tSTATUS\tTASKS\tUPDATED",
            "job_1\trunning\t2\t1970-01-01T00:00:00+00:00",
            "TASK\tNODE\tSTATUS\tEXIT",
            "task_1\tnode-a\tfailed\t-9",
            "task_1\tnode-a\tqueued\t-",
        ]
    );
}

#[test]
fn run_is_shown_as_it_goes() {
    let responses = vec![
        ClientResponse::RunStarted(RunStarted {
            job_id: JobId::from("job_1"),
            tasks: vec![
                TaskAssignment {
                    job_id: JobId::from("job_1"),
                    task_id: TaskId::from("task_1"),
                    node_id: NodeId::from("node-a"),
                },
                TaskAssignment {
                    job_id: JobId::from("job_1"),
                    task_id: TaskId::from("task_2"),
                    node_id: NodeId::from("node-b"),
                },
            ],
        }),
        ClientResponse::TaskStarted(TaskStarted {
            job_id: JobId::from("job_1"),
            task_id: TaskId::from("task_1"),
            node_id: NodeId::from("node-a"),
            pid: Some(7),
            timestamp: at(0),
        }),
        ClientResponse::TaskStarted(TaskStarted {
            job_id: JobId::from("job_1"),
            task_id: TaskId::from("task_2"),
            node_id: NodeId::from("node-b"),
            pid: None,
            timestamp: at(0),
        }),
        ClientResponse::LogLine(log("hello")),
        ClientResponse::TaskExited(TaskExited {
            job_id: JobId::from("job_1"),
            task_id: TaskId::from("task_1"),
            node_id: NodeId::from("node-a"),
            exit_code: Some(0),
            success: true,
            timestamp: at(0),
        }),
        ClientResponse::TaskExited(TaskExited {
            job_id: JobId::from("job_1"),
            task_id: TaskId::from("task_2"),
            node_id: NodeId::from("node-b"),
            exit_code: None,
            success: false,
            timestamp: at(0),
        }),
        ClientResponse::JobFinished(JobFinished {
            job_id: JobId::from("job_1"),
            success: false,
            exits: Vec::new(),
        }),
        ClientResponse::LogLine(log("unseen")),
    ];
    let output = print_responses(Topic::Run, &responses);
    assert_eq!(
        output.lines,
        vec![
            "started job_1 (node-a:task_1, node-b:task_2)",
            "[node-a task_1] pid 7",
            "[node-a task_1 stderr] hello",
            "[node-a task_1] exited success=true code=Some(0)",
            "[node-b task_2] exited success=false code=None",
            "finished job_1 success=false",
        ]
    );
    assert!(matches!(output.end, End::Failed));
}

#[test]
fn errors_end_a_client() {
    let responses = vec![ClientResponse::Ack, ClientResponse::Error("no".to_owned()), ClientResponse::Ack];
    let output = print_responses(Topic::Kill, &responses);
    assert_eq!(output.lines, vec!["kill requested"]);
    assert!(matches!(output.end, End::Error(text) if text == "no"));
    let released = print_responses(Topic::Release, &vec![ClientResponse::Ack]);
    assert_eq!(released.lines, vec!["lease released"]);
    assert!(matches!(released.end, End::Done));
    let jobs = print_responses(Topic::Jobs, &vec![ClientResponse::Jobs(Vec::new())]);
    assert_eq!(jobs.lines, vec!["JOB\tSTATUS\tTASKS\tUPDATED"]);
    let logs = print_responses(Topic::Logs, &vec![ClientResponse::Logs(vec![log("a")])]);
    assert_eq!(logs.lines, vec!["[node-a task_1 stderr] a"]);
    let created = print_responses(Topic::NewLease, &vec![ClientResponse::LeaseCreated(lease("lease_1", &["a"]))]);
    assert_eq!(created.lines.len(), 2);
    let ignored = print_responses(Topic::Jobs, &vec![ClientResponse::Ack]);
    assert!(ignored.lines.is_empty());
}

#[test]
fn diagnosis_is_shown_with_hints_and_errors() {
    let mut diagnosis = JobDiagnosis {
        job_id: JobId::from("job_1"),
        status: "failed".to_owned(),
        summary: "it failed".to_owned(),
        hints: words(&["look here"]),
        recent_errors: vec![log("boom")],
        tasks: vec![task("failed", Some(1))],
    };
    assert_eq!(
        print_job_diagnosis(&diagnosis),
        vec![
            "JOB\tSTATUS\tSUMMARY",
            "job_1\tfailed\tit failed",
            "TASK\tNODE\tSTATUS\tEXIT",
            "task_1\tnode-a\tfailed\t1",
            "HINTS",
            "- look here",
            "RECENT_ERRORS",
            "[node-a task_1 stderr] boom",
        ]
    );
    diagnosis.recent_errors = Vec::new();
    let shown = print_responses(Topic::Diagnosis, &vec![ClientResponse::JobDiagnosis(diagnosis)]);
    assert_eq!(shown.lines.len(), 6);
}

#[test]
fn commands_come_to_their_plans() {
    assert!(matches!(plan(Command::Nodes), Plan::ShowNodes));
    assert!(matches!(plan(Command::Inventory(InventoryCommand::Nodes)), Plan::ShowNodes));
    assert!(matches!(plan(Command::Lease(LeaseCommand::List)), Plan::ShowLeases));
    let status = JobCommand::Status { job_id: "job_1".to_owned() };
    assert!(matches!(plan(Command::Job(status)), Plan::ShowJob(id) if id.as_str() == "job_1"));
    let health = HealthCommand::Gpu { nodes: Vec::new() };
    assert!(matches!(plan(Command::Health(health)), Plan::Ask { topic: Topic::Run, .. }));
    let command = Command::Run {
        nodes: vec!["node-a".to_owned()],
        cwd: Some("/work".to_owned()),
        wait: false,
        timeout_seconds: Some(9),
        argv: vec!["hostname".to_owned()],
    };
    match plan(command) {
        Plan::Ask { request: ClientRequest::RunProcess(run), topic: Topic::Run } => {
            assert_eq!(run.nodes[0].as_str(), "node-a");
            assert_eq!(run.cwd.as_deref(), Some("/work"));
            assert!(!run.wait);
            assert_eq!(run.timeout.map(|limit| limit.seconds), Some(9));
            assert_eq!(run.argv, vec!["hostname"]);
        }
        other => panic!("{other:?}"),
    }
}
