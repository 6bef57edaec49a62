use multinode_controller::auth::{AuthConfig, AuthRole, TokenFile};
use multinode_controller::cli::{handle_job, run_request, take_message, JobCommand, Plan};
use multinode_controller::coordinator::{first_write, CoordinatorState, Effect};
use multinode_controller::executor::{ExecutionEvent, LocalExecutor, LogCursor, WaitEnd};
use multinode_controller::handshake::{
    authenticate_request, unauthorized_response, websocket_request,
};
use multinode_controller::jobstore::SqliteJobStore;
use multinode_controller::policy::{ConfigPolicy, PolicyConfig};
use multinode_controller::protocol::{
    ClientRequest, ClientResponse, LogStream, NodeInfo, TaskSpec, WireMessage, WorkerMessage,
};
use multinode_controller::render::{print_nodes, print_responses, End, Topic};
use multinode_controller::routing::{first_step, handle_client, ClientStep, FirstStep};
use multinode_controller::runs::RunEnd;
use multinode_controller::sandbox::NoneSandbox;
use multinode_controller::time::Timestamp;
use multinode_controller::worker::{event_message, start_task, StartStep};

/// A coordinator with its store and one worker, without connections between them.
struct Cluster {
    auth: AuthConfig,
    state: CoordinatorState,
    store: SqliteJobStore,
    policy: ConfigPolicy,
    executor: LocalExecutor,
}

/// What a client gets to see.
struct Seen {
    success: bool,
    text: String,
}

fn token_file(path: &str, contents: &str) -> TokenFile {
    TokenFile { path: path.to_owned(), contents: Some(contents.to_owned()) }
}

fn words(parts: &[&str]) -> Vec<String> {
    parts.iter().map(|part| (*part).to_owned()).collect()
}

impl Cluster {
    fn connect(&self, role: AuthRole, token: Option<&str>) -> Result<AuthRole, Seen> {
        let request = websocket_request("ws://127.0.0.1:8765", role, token).unwrap();
        authenticate_request(&request, &self.auth).map_err(|failure| {
            let answer = unauthorized_response(failure);
            Seen { success: false, text: format!("HTTP error: {}", answer.status()) }
        })
    }

    fn tell(&mut self, message: WorkerMessage) -> Vec<Effect> {
        if let Some(write) = first_write(&message) {
            write.keep(&mut self.store);
        }
        let effects = self.state.handle_worker_message(message, Timestamp::now());
        for effect in &effects {
            if let Effect::Store(write) = effect {
                write.keep(&mut self.store);
            }
        }
        effects
    }

    /// Executes a task whose process writes one line and ends well.
    fn execute(&mut self, spec: TaskSpec, output: &str) -> Vec<Effect> {
        let request = match start_task(spec, &self.policy, &NoneSandbox) {
            StartStep::Execute(request) => request,
            other => panic!("{other:?}"),
        };
        assert_eq!(request.command.program, "sh");
        let run = request.spec;
        let mut cursor = LogCursor::new();
        let started = self.executor.started(&run, Some(4711), Timestamp::now());
        let line = cursor.next_line(&run, LogStream::Stdout, output.to_owned(), Timestamp::now());
        let end = WaitEnd::Status { code: Some(0), success: true };
        let exited = self.executor.exited(
            run.job_id.clone(),
            run.task_id.clone(),
            run.node_id.clone(),
            end,
            Timestamp::now(),
        );
        let mut effects = Vec::new();
        for event in [
            ExecutionEvent::Started(started),
            ExecutionEvent::Log(line),
            ExecutionEvent::Exited(exited),
        ] {
            effects.extend(self.tell(event_message(event)));
        }
        effects
    }

    fn answer(&mut self, request: ClientRequest, output: Option<&str>) -> Vec<ClientResponse> {
        match handle_client(&mut self.state, request) {
            ClientStep::Reply(response) => vec![response],
            ClientStep::Query(query) => vec![query.answer(&self.store)],
            ClientStep::Kill { orders, reply } => {
                assert_eq!(orders.len(), 1);
                vec![reply]
            }
            ClientStep::Run(request) => {
                let plan = self.state.run_process(&request).unwrap();
                for step in &plan.steps {
                    assert!(step.reply().is_none());
                    self.store.take_step(step, Timestamp::now());
                    self.state.take_step(step);
                }
                let mut responses = vec![plan.reply()];
                let end = plan.end();
                let mut effects = Vec::new();
                for order in plan.orders {
                    if let Some(output) = output {
                        effects.extend(self.execute(order.spec, output));
                    }
                }
                match end {
                    RunEnd::Wait(mut wait) => {
                        for effect in effects {
                            if let Effect::Publish(event) = effect {
                                responses.extend(wait.on_event(event));
                            }
                        }
                        assert!(wait.is_done());
                        responses.push(ClientResponse::JobFinished(wait.finish()));
                    }
                    RunEnd::Acknowledge(response) => responses.push(response),
                    RunEnd::Nothing => {}
                }
                responses
            }
        }
    }

    fn ask(
        &mut self,
        token: Option<&str>,
        request: ClientRequest,
        topic: Topic,
        output: Option<&str>,
    ) -> Seen {
        let role = match self.connect(AuthRole::Client, token) {
            Ok(role) => role,
            Err(refused) => return refused,
        };
        let first = first_step(WireMessage::ClientRequest(request), "", Some(role));
        let request = match first {
            FirstStep::Client(request) => request,
            other => panic!("{other:?}"),
        };
        let mut responses = Vec::new();
        for response in self.answer(request, output) {
            if take_message(&mut responses, WireMessage::ClientResponse(response)) {
                break;
            }
        }
        let shown = print_responses(topic, &responses);
        Seen { success: matches!(shown.end, End::Done), text: shown.lines.join("\n") }
    }
}

fn started_job(text: &str) -> String {
    let line = text.lines().find_map(|line| line.strip_prefix("started ")).unwrap();
    line.split_whitespace().next().unwrap().to_owned()
}

fn ask_of(command: JobCommand) -> (ClientRequest, Topic) {
    match handle_job(command) {
        Plan::Ask { request, topic } => (request, topic),
        other => panic!("{other:?}"),
    }
}

#[test]
fn authenticated_runtime_rejects_missing_tokens_and_runs_jobs() {
    let worker_token = token_file("worker.token", "worker-secret\n");
    let client_token = token_file("client.token", "client-secret\n");
    let mut cluster = Cluster {
        auth: AuthConfig::from_files(None, Some(&worker_token), Some(&client_token)).unwrap(),
        state: CoordinatorState::new(),
        store: SqliteJobStore::in_memory(),
        policy: ConfigPolicy {
            config: PolicyConfig::default(),
            source: Some("examples/allow-all.yaml".to_owned()),
        },
        executor: LocalExecutor::default(),
    };
    let token = Some("client-secret");

    // The worker registers with its token.
    let role = cluster.connect(AuthRole::Worker, Some("worker-secret")).ok().unwrap();
    let node = NodeInfo::new("auth-test-worker".to_owned(), "host".to_owned(), "linux", "x86_64");
    match first_step(WireMessage::Worker(WorkerMessage::Register(node)), "", Some(role)) {
        FirstStep::Worker(info) => cluster.state.register(info, 1, Timestamp::now()),
        other => panic!("{other:?}"),
    }
    let nodes = print_nodes(&cluster.state.list_nodes()).join("\n");
    assert!(nodes.contains("auth-test-worker"), "{nodes}");

    // No token, or the wrong one, is refused before any message is read.
    let no_token = cluster.ask(None, ClientRequest::ListNodes, Topic::Run, None);
    assert!(!no_token.success);
    assert!(no_token.text.contains("401 Unauthorized"));
    let wrong = cluster.ask(Some("worker-secret"), ClientRequest::ListNodes, Topic::Run, None);
    assert!(!wrong.success);
    assert!(wrong.text.contains("401 Unauthorized"));

    // A run shows its output and ends well.
    let argv = words(&["sh", "-lc", "echo auth-test-log"]);
    let request = run_request(&words(&["auth-test-worker"]), argv, None, None, true);
    let run = cluster.ask(token, request, Topic::Run, Some("auth-test-log"));
    assert!(run.success, "{}", run.text);
    let job_id = started_job(&run.text);
    assert!(run.text.contains("auth-test-log"), "{}", run.text);

    // The job is listed and its output can be read again.
    let (request, topic) = ask_of(JobCommand::List { limit: 20 });
    let jobs = cluster.ask(token, request, topic, None);
    assert!(jobs.success, "{}", jobs.text);
    assert!(jobs.text.contains(&job_id));
    let (request, topic) = ask_of(JobCommand::Tail { job_id: job_id.clone(), lines: 100 });
    let tail = cluster.ask(token, request, topic, None);
    assert!(tail.success, "{}", tail.text);
    assert!(tail.text.contains("auth-test-log"));

    // A run that is not waited for can be ended.
    let argv = words(&["sh", "-lc", "sleep 30"]);
    let request = run_request(&words(&["auth-test-worker"]), argv, None, None, false);
    let long_run = cluster.ask(token, request, Topic::Run, None);
    assert!(long_run.success, "{}", long_run.text);
    let long_job_id = started_job(&long_run.text);
    let (request, topic) = ask_of(JobCommand::Kill { job_id: long_job_id });
    let kill = cluster.ask(token, request, topic, None);
    assert!(kill.success, "{}", kill.text);
    assert!(kill.text.contains("kill requested"));
}
