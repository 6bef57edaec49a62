use multinode_controller::executor::{
    deadline, exit_result, next_end_step, timeout_line, EndStep, ExecutionEvent, LocalExecutor,
    LogCursor, WaitEnd,
};
use multinode_controller::ids::{JobId, NodeId, TaskId};
use multinode_controller::policy::{
    command_matches, command_matches_any, AllowAllPolicy, ConfigPolicy, PolicyConfig, PolicyEngine,
    PolicyMode, SandboxPolicyConfig,
};
use multinode_controller::protocol::{
    CoordinatorMessage, DecisionKind, DurationSpec, LogStream, OperationRequest, PolicyDecision,
    RiskLevel, RunSpec, TaskSpec, WireMessage, WorkerMessage,
};
use multinode_controller::sandbox::{
    NoneSandbox, SandboxBackend, SandboxError, SandboxHandle,
};
use multinode_controller::table::Table;
use multinode_controller::time::Timestamp;
use multinode_controller::worker::{
    check_decision, event_message, heartbeat, kill_failure, node_name, start_failure, start_task,
    worker_step, Backoff, StartStep, WorkerStep,
};

fn at(secs: i64) -> Timestamp {
    Timestamp::from_parts(secs, 0).unwrap()
}

fn words(parts: &[&str]) -> Vec<String> {
    parts.iter().map(|part| (*part).to_owned()).collect()
}

fn spec(argv: &[&str]) -> RunSpec {
    let mut env = Table::new();
    env.insert("A".to_owned(), "1".to_owned());
    RunSpec::simple(
        JobId::from("job_1"),
        TaskId::from("task_1"),
        NodeId::from("node-a"),
        words(argv),
        "/work".to_owned(),
        env,
    )
}

fn policy(mode: PolicyMode, allow: &[&str], deny: &[&str]) -> ConfigPolicy {
    ConfigPolicy {
        config: PolicyConfig {
            version: 1,
            mode,
            allow_commands: words(allow),
            deny_commands: words(deny),
            sandbox: None,
        },
        source: Some("/etc/policy.yaml".to_owned()),
    }
}

fn decide<P: PolicyEngine>(policy: &P, argv: &[&str]) -> PolicyDecision {
    let run = spec(argv);
    policy.authorize(&OperationRequest::process_start(&run, "agent-worker"), &run)
}

#[test]
fn patterns_mean_commands_and_their_names() {
    assert!(command_matches("rm", "rm"));
    assert!(command_matches("/bin/rm", "rm"));
    assert!(command_matches("/bin/rm", "/bin/rm"));
    assert!(!command_matches("rm", "/bin/rm"));
    assert!(!command_matches("rmdir", "rm"));
    assert!(command_matches("", ""));
    assert!(command_matches_any("./shutdown", &words(&["rm", "shutdown"])));
    assert!(!command_matches_any("ls", &words(&["rm", "shutdown"])));
    assert!(!command_matches_any("ls", &Vec::new()));
}

#[test]
fn allow_all_policy_allows() {
    let decision = decide(&AllowAllPolicy::default(), &["rm"]);
    assert_eq!(decision.decision, DecisionKind::Allow);
    assert_eq!(decision.reason, "allow_all mode");
}

#[test]
fn denied_commands_are_denied_in_both_modes() {
    for mode in [PolicyMode::AllowAll, PolicyMode::DenyAll] {
        let decision = decide(&policy(mode, &["rm"], &["rm"]), &["/bin/rm", "-rf"]);
        assert_eq!(decision.decision, DecisionKind::Deny);
        assert_eq!(decision.reason, "command \"/bin/rm\" denied by worker policy");
        assert_eq!(decision.risk, RiskLevel::High);
        assert_eq!(decision.sandbox_profile, None);
    }
}

#[test]
fn mode_decides_on_commands_that_no_list_names() {
    let open = decide(&policy(PolicyMode::AllowAll, &[], &["rm"]), &["ls"]);
    assert_eq!(open.decision, DecisionKind::Allow);
    assert_eq!(open.reason, "allowed by policy /etc/policy.yaml");
    assert_eq!(open.sandbox_profile.as_deref(), Some("none"));
    let closed = decide(&policy(PolicyMode::DenyAll, &["ls"], &[]), &["it's \"x\"\n"]);
    assert_eq!(closed.decision, DecisionKind::Deny);
    assert_eq!(closed.reason, "command \"it's \\\"x\\\"\\n\" is not allowed by worker policy");
    let listed = decide(&policy(PolicyMode::DenyAll, &["ls"], &[]), &["/usr/bin/ls"]);
    assert_eq!(listed.decision, DecisionKind::Allow);
    let empty = decide(&policy(PolicyMode::DenyAll, &[], &[]), &[]);
    assert_eq!(empty.reason, "command \"\" is not allowed by worker policy");
}

#[test]
fn policy_names_the_sandbox() {
    let mut strict = policy(PolicyMode::AllowAll, &[], &[]);
    strict.config.sandbox = Some(SandboxPolicyConfig {
        profile: Some("strict".to_owned()),
        backend: None,
    });
    assert_eq!(decide(&strict, &["ls"]).sandbox_profile.as_deref(), Some("strict"));
    strict.config.sandbox = Some(SandboxPolicyConfig { profile: None, backend: None });
    assert_eq!(decide(&strict, &["ls"]).sandbox_profile.as_deref(), Some("none"));
    let default = ConfigPolicy::default();
    assert_eq!(default.config.version, 1);
    assert_eq!(default.config.mode, PolicyMode::default());
    let decision = decide(&default, &["ls"]);
    assert_eq!(decision.reason, "allow_all mode");
    assert_eq!(decision.sandbox_profile.as_deref(), Some("none"));
}

#[test]
fn decision_takes_the_command_as_it_is_shown() {
    let decision = policy(PolicyMode::DenyAll, &[], &[]).decide("ls", "<ls>");
    assert_eq!(decision.reason, "command <ls> is not allowed by worker policy");
}

#[test]
fn process_without_a_sandbox_is_the_command() {
    let sandbox = NoneSandbox::default();
    let run = spec(&["python", "train.py", "--fast"]);
    let command = sandbox.prepare(&run, &PolicyDecision::allow_all()).unwrap();
    assert_eq!(command.program, "python");
    assert_eq!(command.args, words(&["train.py", "--fast"]));
    assert_eq!(command.cwd, "/work");
    assert_eq!(command.env.get("A").unwrap(), "1");
    assert!(command.kill_process_group);
    let error = sandbox.prepare(&spec(&[]), &PolicyDecision::allow_all()).unwrap_err();
    assert!(matches!(error, SandboxError::EmptyCommand));
    assert_eq!(error.message(), "run spec argv cannot be empty");
    assert!(sandbox.cleanup(&SandboxHandle { task_id: TaskId::from("task_1") }).is_ok());
}

#[test]
fn task_is_executed_only_if_policy_and_sandbox_agree() {
    let task = |argv: &[&str]| TaskSpec { run: spec(argv) };
    let open = policy(PolicyMode::AllowAll, &[], &["rm"]);
    match start_task(task(&["ls", "-l"]), &open, &NoneSandbox) {
        StartStep::Execute(request) => {
            assert_eq!(request.command.program, "ls");
            assert_eq!(request.spec.task_id.as_str(), "task_1");
        }
        other => panic!("{other:?}"),
    }
    match start_task(task(&["rm"]), &open, &NoneSandbox) {
        StartStep::Refuse(WorkerMessage::Error(error)) => {
            assert_eq!(error.node_id.unwrap().as_str(), "node-a");
            assert_eq!(error.task_id.unwrap().as_str(), "task_1");
            assert_eq!(error.message, "command \"rm\" denied by worker policy");
        }
        other => panic!("{other:?}"),
    }
    assert!(matches!(
        start_task(task(&[]), &AllowAllPolicy, &NoneSandbox),
        StartStep::Fail(SandboxError::EmptyCommand)
    ));
}

#[test]
fn only_an_allowance_passes() {
    let task = TaskSpec { run: spec(&["ls"]) };
    assert!(check_decision(&task, PolicyDecision::allow_all()).is_ok());
    let mut ask = PolicyDecision::allow_all();
    ask.decision = DecisionKind::Ask;
    ask.reason = "needs a human".to_owned();
    match check_decision(&task, ask) {
        Err(WorkerMessage::Error(error)) => assert_eq!(error.message, "needs a human"),
        other => panic!("{other:?}"),
    }
}

#[test]
fn executor_keeps_the_processes_that_run() {
    let mut executor = LocalExecutor::default();
    let run = spec(&["ls"]);
    let event = executor.started(&run, Some(42), at(1));
    assert_eq!(event.pid, Some(42));
    assert_eq!(event.timestamp, at(1));
    assert_eq!(executor.running_count(), 1);
    assert_eq!(executor.kill(&run.task_id).unwrap(), 42);
    let end = WaitEnd::Status { code: Some(3), success: false };
    let exit = executor.exited(run.job_id.clone(), run.task_id.clone(), run.node_id.clone(), end, at(2));
    assert_eq!(exit.exit_code, Some(3));
    assert!(!exit.success);
    assert_eq!(executor.running_count(), 0);
    let error = executor.kill(&run.task_id).unwrap_err();
    assert_eq!(error.message(), "task task_1 is not running");
    executor.started(&run, None, at(3));
    assert_eq!(executor.running_count(), 0);
}

#[test]
fn end_of_a_wait_is_the_result_of_a_task() {
    assert_eq!(exit_result(WaitEnd::Status { code: Some(0), success: true }), (Some(0), true));
    assert_eq!(exit_result(WaitEnd::Status { code: None, success: false }), (None, false));
    assert_eq!(exit_result(WaitEnd::Failed), (None, false));
    assert_eq!(exit_result(WaitEnd::TimedOut), (None, false));
}

#[test]
fn zero_seconds_are_no_limit() {
    assert_eq!(deadline(None), None);
    assert_eq!(deadline(Some(DurationSpec { seconds: 0 })), None);
    assert_eq!(deadline(Some(DurationSpec { seconds: 9 })), Some(9));
    let run = spec(&["ls"]);
    let line = timeout_line(&run.job_id, &run.task_id, &run.node_id, 90, at(4));
    assert_eq!(line.line, "task timed out after 90s; terminating process group");
    assert_eq!(line.stream, LogStream::System);
    assert_eq!(line.offset, 0);
    assert_eq!(line.timestamp, at(4));
}

#[test]
fn process_group_is_asked_before_it_is_killed() {
    let steps = |pid: Option<u32>, runs: bool| -> Vec<EndStep> {
        let mut steps = Vec::new();
        let mut last = None;
        loop {
            let step = next_end_step(last, pid, runs);
            steps.push(step);
            if step == EndStep::Reap {
                return steps;
            }
            last = Some(step);
        }
    };
    let ask = EndStep::AskGroup { pid: 5 };
    let wait = EndStep::Wait { seconds: 5 };
    assert_eq!(steps(Some(5), true), vec![ask, wait, EndStep::KillGroup { pid: 5 }, EndStep::Reap]);
    assert_eq!(steps(Some(5), false), vec![ask, wait, EndStep::Reap]);
    assert_eq!(steps(None, true), vec![EndStep::KillProcess, EndStep::Reap]);
}

#[test]
fn offsets_count_bytes_and_line_ends() {
    let run = spec(&["ls"]);
    let mut cursor = LogCursor::new();
    let first = cursor.next_line(&run, LogStream::Stdout, "häm".to_owned(), at(1));
    assert_eq!(first.offset, 0);
    assert_eq!(first.line, "häm");
    let second = cursor.next_line(&run, LogStream::Stdout, "".to_owned(), at(1));
    assert_eq!(second.offset, 5);
    let third = cursor.next_line(&run, LogStream::Stderr, "x".to_owned(), at(1));
    assert_eq!(third.offset, 6);
    assert_eq!(third.stream, LogStream::Stderr);
    assert_eq!(cursor.offset, 8);
    assert!(cursor.fits(&"x".to_owned()));
    assert!(!LogCursor { offset: u64::MAX - 1 }.fits(&"x".to_owned()));
    assert!(LogCursor { offset: u64::MAX - 2 }.fits(&"x".to_owned()));
    assert!(!LogCursor { offset: u64::MAX }.fits(&"".to_owned()));
}

#[test]
fn waits_double_up_to_half_a_minute() {
    let mut backoff = Backoff::new();
    let mut waits = Vec::new();
    for _ in 0..7 {
        let (wait, next) = backoff.fail();
        waits.push(wait);
        backoff = next;
    }
    assert_eq!(waits, vec![1, 2, 4, 8, 16, 30, 30]);
    assert_eq!(Backoff::new().fail().0, 1);
}

#[test]
fn worker_does_what_messages_ask() {
    let start = CoordinatorMessage::StartTask(TaskSpec { run: spec(&["ls"]) });
    assert!(matches!(worker_step(WireMessage::Coordinator(start)), WorkerStep::Start(_)));
    let kill = CoordinatorMessage::KillTask(TaskId::from("task_1"));
    assert!(matches!(
        worker_step(WireMessage::Coordinator(kill)),
        WorkerStep::Kill(task) if task.as_str() == "task_1"
    ));
    let ping = CoordinatorMessage::Ping;
    assert!(matches!(worker_step(WireMessage::Coordinator(ping)), WorkerStep::Ignore));
    let update = CoordinatorMessage::UpdatePolicy("{}".to_owned());
    assert!(matches!(worker_step(WireMessage::Coordinator(update)), WorkerStep::Ignore));
}

#[test]
fn worker_tells_what_happens() {
    assert_eq!(node_name(Some("node-a".to_owned()), "host"), "node-a");
    assert_eq!(node_name(None, "host"), "host");
    match heartbeat(&NodeId::from("node-a"), 3, at(5)) {
        WorkerMessage::Heartbeat(beat) => {
            assert_eq!(beat.node_id.as_str(), "node-a");
            assert_eq!(beat.running_tasks, 3);
            assert_eq!(beat.timestamp, at(5));
        }
        other => panic!("{other:?}"),
    }
    match kill_failure(&NodeId::from("node-a"), TaskId::from("task_1"), "no".to_owned()) {
        WorkerMessage::Error(error) => {
            assert_eq!(error.node_id.unwrap().as_str(), "node-a");
            assert_eq!(error.task_id.unwrap().as_str(), "task_1");
        }
        other => panic!("{other:?}"),
    }
    match start_failure("no".to_owned()) {
        WorkerMessage::Error(error) => {
            assert!(error.node_id.is_none() && error.task_id.is_none());
            assert_eq!(error.message, "no");
        }
        other => panic!("{other:?}"),
    }
    let mut executor = LocalExecutor::default();
    let run = spec(&["ls"]);
    let started = executor.started(&run, Some(1), at(1));
    assert!(matches!(
        event_message(ExecutionEvent::Started(started)),
        WorkerMessage::TaskStarted(_)
    ));
    let line = timeout_line(&run.job_id, &run.task_id, &run.node_id, 1, at(1));
    assert!(matches!(event_message(ExecutionEvent::Log(line)), WorkerMessage::LogLine(_)));
    let exit = executor.exited(run.job_id, run.task_id, run.node_id, WaitEnd::Failed, at(2));
    assert!(matches!(event_message(ExecutionEvent::Exited(exit)), WorkerMessage::TaskExited(_)));
}
