use multinode_controller::auth::AuthRole;
use multinode_controller::coordinator::{
    first_write, lost_task, CoordinatorEvent, CoordinatorState, Effect, StoreWrite,
};
use multinode_controller::ids::{JobId, LeaseId, NodeId, TaskId};
use multinode_controller::jobstore::SqliteJobStore;
use multinode_controller::leases::LeaseRefusal;
use multinode_controller::protocol::{
    ClientRequest, ClientResponse, CreateLeaseRequest, DiagnoseJobRequest, DurationSpec,
    JobStatusRequest, KillJobRequest, ListJobsRequest, LogLine, LogStream, NodeHeartbeat, NodeInfo,
    ReleaseLeaseRequest, RunProcessRequest, TailJobRequest, TaskExited, TaskStarted, WireMessage,
    WorkerError, WorkerMessage, CoordinatorMessage,
};
use multinode_controller::routing::{
    ensure_role, first_step, handle_client, ClientStep, FirstStep, StoreQuery,
};
use multinode_controller::runs::{JobWait, RunEnd, RunPlan, RunRefusal, RunStep};
use multinode_controller::table::Table;
use multinode_controller::time::Timestamp;

fn at(secs: i64) -> Timestamp {
    Timestamp::from_parts(secs, 0).unwrap()
}

fn info(name: &str) -> NodeInfo {
    NodeInfo::started(name.to_owned(), format!("host-{name}"), "linux", "x86_64", at(0))
}

fn cluster(names: &[&str]) -> CoordinatorState {
    let mut state = CoordinatorState::new();
    for (i, name) in names.iter().enumerate() {
        state.register(info(name), i as u64 + 1, at(1));
    }
    state
}

fn run(nodes: &[&str]) -> RunProcessRequest {
    RunProcessRequest {
        nodes: nodes.iter().map(|name| NodeId::from(*name)).collect(),
        argv: vec!["hostname".to_owned()],
        cwd: None,
        env: Table::new(),
        node_env: Table::new(),
        lease_id: None,
        timeout: None,
        wait: true,
    }
}

fn lease(nodes: &[&str], exclusive: bool) -> CreateLeaseRequest {
    CreateLeaseRequest {
        nodes: nodes.iter().map(|name| NodeId::from(*name)).collect(),
        count: None,
        gpus_per_node: Some(2),
        exclusive,
    }
}

fn start_event(node: &str, task: &str, job: &str) -> TaskStarted {
    TaskStarted {
        job_id: JobId::from(job),
        task_id: TaskId::from(task),
        node_id: NodeId::from(node),
        pid: Some(11),
        timestamp: at(2),
    }
}

fn exit_event(node: &str, task: &str, job: &str, success: bool) -> TaskExited {
    TaskExited {
        job_id: JobId::from(job),
        task_id: TaskId::from(task),
        node_id: NodeId::from(node),
        exit_code: Some(0),
        success,
        timestamp: at(3),
    }
}

fn mark(state: &mut CoordinatorState, node: &str, task: &str, job: &str) {
    state.mark_running(&NodeId::from(node), &TaskId::from(task), &JobId::from(job));
}

fn apply(state: &mut CoordinatorState, plan: &RunPlan) {
    for step in &plan.steps {
        state.take_step(step);
    }
}

fn names(nodes: &[NodeId]) -> Vec<&str> {
    nodes.iter().map(|node| node.as_str()).collect()
}

#[test]
fn registered_workers_are_listed() {
    let mut state = cluster(&["node-a", "node-b"]);
    mark(&mut state, "node-b", "task_1", "job_1");
    let nodes = state.list_nodes();
    assert_eq!(nodes.len(), 2);
    assert_eq!(nodes[0].node_id.as_str(), "node-a");
    assert_eq!(nodes[0].hostname, "host-node-a");
    assert!(nodes[0].online);
    assert_eq!(nodes[0].last_seen, at(1));
    assert_eq!(nodes[0].running_tasks, 0);
    assert_eq!(nodes[1].running_tasks, 1);
    // A worker that registers again starts afresh.
    state.register(info("node-b"), 9, at(5));
    assert_eq!(state.list_nodes()[1].running_tasks, 0);
    assert_eq!(state.list_nodes()[1].last_seen, at(5));
}

#[test]
fn heartbeats_change_when_a_node_was_last_seen() {
    let mut state = cluster(&["node-a"]);
    let beat = |node: &str| {
        WorkerMessage::Heartbeat(NodeHeartbeat {
            node_id: NodeId::from(node),
            timestamp: at(60),
            running_tasks: 4,
        })
    };
    assert!(first_write(&beat("node-a")).is_none());
    assert!(state.handle_worker_message(beat("node-a"), at(0)).is_empty());
    assert!(state.handle_worker_message(beat("node-x"), at(0)).is_empty());
    assert_eq!(state.list_nodes()[0].last_seen, at(60));
    assert_eq!(state.list_nodes()[0].running_tasks, 0);
    assert_eq!(state.list_nodes().len(), 1);
}

#[test]
fn started_task_runs_until_it_ends() {
    let mut state = cluster(&["node-a"]);
    let message = WorkerMessage::TaskStarted(start_event("node-a", "task_1", "job_1"));
    assert!(matches!(first_write(&message), Some(StoreWrite::Started(_))));
    let effects = state.handle_worker_message(message, at(9));
    assert_eq!(effects.len(), 1);
    assert!(matches!(&effects[0], Effect::Publish(CoordinatorEvent::Started(e)) if e.task_id.as_str() == "task_1"));
    assert_eq!(state.list_nodes()[0].running_tasks, 1);
    let orders = state.kill_job(&JobId::from("job_1"));
    assert_eq!(orders.len(), 1);
    assert_eq!(orders[0].connection, 1);
    assert_eq!(orders[0].task_id.as_str(), "task_1");

    let message = WorkerMessage::TaskExited(exit_event("node-a", "task_1", "job_1", true));
    assert!(matches!(first_write(&message), Some(StoreWrite::Exited(_))));
    let effects = state.handle_worker_message(message, at(9));
    assert!(matches!(&effects[0], Effect::Publish(CoordinatorEvent::Exited(_))));
    assert_eq!(state.list_nodes()[0].running_tasks, 0);
    assert!(state.kill_job(&JobId::from("job_1")).is_empty());
}

#[test]
fn log_lines_are_kept_and_published() {
    let mut state = cluster(&["node-a"]);
    let (line, _) = lost_task(&NodeId::from("node-a"), "task_1", &JobId::from("job_1"), "text", at(4));
    let message = WorkerMessage::LogLine(line);
    let write = first_write(&message).unwrap();
    let mut store = SqliteJobStore::in_memory();
    write.keep(&mut store);
    assert_eq!(store.logs[0].line, "text");
    let effects = state.handle_worker_message(message, at(9));
    assert!(matches!(&effects[0], Effect::Publish(CoordinatorEvent::Log(l)) if l.line == "text"));
}

#[test]
fn failure_of_a_running_task_ends_it() {
    let mut state = cluster(&["node-a"]);
    mark(&mut state, "node-a", "task_1", "job_1");
    let failure = |node: Option<&str>, task: Option<&str>| {
        WorkerMessage::Error(WorkerError {
            node_id: node.map(NodeId::from),
            task_id: task.map(TaskId::from),
            message: "denied".to_owned(),
        })
    };
    for message in [failure(None, None), failure(Some("node-a"), None), failure(None, Some("task_1")), failure(Some("node-x"), Some("task_1")), failure(Some("node-a"), Some("task_9"))] {
        assert!(first_write(&message).is_none());
        let effects = state.handle_worker_message(message, at(8));
        assert_eq!(effects.len(), 1);
        assert!(matches!(&effects[0], Effect::Publish(CoordinatorEvent::Error(e)) if e.message == "denied"));
    }
    let effects = state.handle_worker_message(failure(Some("node-a"), Some("task_1")), at(8));
    assert_eq!(effects.len(), 3);
    match &effects[0] {
        Effect::Store(StoreWrite::Exited(exit)) => {
            assert_eq!(exit.job_id.as_str(), "job_1");
            assert_eq!(exit.task_id.as_str(), "task_1");
            assert_eq!(exit.exit_code, None);
            assert!(!exit.success);
            assert_eq!(exit.timestamp, at(8));
        }
        other => panic!("{other:?}"),
    }
    assert!(matches!(&effects[1], Effect::Publish(CoordinatorEvent::Exited(_))));
    assert!(matches!(&effects[2], Effect::Publish(CoordinatorEvent::Error(_))));
    assert_eq!(state.list_nodes()[0].running_tasks, 0);
}

#[test]
fn registration_after_the_first_message_is_ignored() {
    let mut state = cluster(&["node-a"]);
    let effects = state.handle_worker_message(WorkerMessage::Register(info("node-b")), at(1));
    assert!(effects.is_empty());
    assert_eq!(state.list_nodes().len(), 1);
}

#[test]
fn lost_node_takes_its_tasks_with_it() {
    let mut state = cluster(&["node-a", "node-b"]);
    mark(&mut state, "node-a", "task_1", "job_1");
    mark(&mut state, "node-a", "task_2", "job_2");
    let effects = state.mark_node_lost(&NodeId::from("node-a"), "worker disconnected");
    assert_eq!(effects.len(), 8);
    for (k, (task, job)) in [("task_1", "job_1"), ("task_2", "job_2")].into_iter().enumerate() {
        match &effects[4 * k] {
            Effect::Store(StoreWrite::Log(line)) => {
                assert_eq!(line.line, "worker disconnected");
                assert_eq!(line.stream, LogStream::System);
                assert_eq!(line.task_id.as_str(), task);
                assert_eq!(line.job_id.as_str(), job);
                assert_eq!(line.offset, 0);
            }
            other => panic!("{other:?}"),
        }
        assert!(matches!(&effects[4 * k + 1], Effect::Publish(CoordinatorEvent::Log(_))));
        assert!(matches!(&effects[4 * k + 2], Effect::Store(StoreWrite::Exited(e)) if !e.success));
        assert!(matches!(&effects[4 * k + 3], Effect::Publish(CoordinatorEvent::Exited(e)) if e.task_id.as_str() == task));
    }
    assert_eq!(state.list_nodes().len(), 1);
    assert!(state.mark_node_lost(&NodeId::from("node-a"), "again").is_empty());
}

#[test]
fn kill_orders_go_to_every_node_of_the_job() {
    let mut state = cluster(&["node-a", "node-b", "node-c"]);
    mark(&mut state, "node-a", "task_1", "job_1");
    mark(&mut state, "node-a", "task_2", "job_2");
    mark(&mut state, "node-c", "task_3", "job_1");
    mark(&mut state, "node-c", "task_4", "job_1");
    let orders = state.kill_job(&JobId::from("job_1"));
    let pairs: Vec<(u64, &str)> =
        orders.iter().map(|order| (order.connection, order.task_id.as_str())).collect();
    assert_eq!(pairs, vec![(1, "task_1"), (3, "task_3"), (3, "task_4")]);
}

#[test]
fn lease_takes_named_nodes_or_as_many_as_asked() {
    let mut state = cluster(&["node-a", "node-b", "node-c"]);
    let granted = state.grant_lease(lease(&["node-b"], true), LeaseId::from("lease_1"), at(7)).unwrap();
    assert_eq!(granted.lease_id.as_str(), "lease_1");
    assert_eq!(names(&granted.nodes), vec!["node-b"]);
    assert_eq!(granted.gpus_per_node, Some(2));
    assert!(granted.exclusive);
    assert_eq!(granted.created_at, at(7));
    assert!(state.release_lease(&LeaseId::from("lease_1")));

    let mut two = lease(&[], false);
    two.count = Some(2);
    assert_eq!(names(&state.create_lease(two).unwrap().nodes), vec!["node-a", "node-b"]);
    let mut none = lease(&[], false);
    none.count = Some(0);
    assert_eq!(names(&state.create_lease(none).unwrap().nodes), vec!["node-a"]);
    let mut many = lease(&[], false);
    many.count = Some(50);
    assert_eq!(state.create_lease(many).unwrap().nodes.len(), 3);
    assert_eq!(state.create_lease(lease(&[], false)).unwrap().nodes.len(), 3);
    assert_eq!(state.list_leases().len(), 4);
    assert!(state.list_leases()[0].lease_id.as_str().starts_with("lease_"));
}

#[test]
fn leases_are_refused_for_their_reasons() {
    let mut empty = CoordinatorState::new();
    let refusal = empty.create_lease(lease(&[], true)).unwrap_err();
    assert!(matches!(refusal, LeaseRefusal::NoNodes));
    assert_eq!(refusal.message(), "no connected nodes are available for a lease");

    let mut state = cluster(&["node-a", "node-b"]);
    let refusal = state.create_lease(lease(&["node-a", "node-x", "node-y"], true)).unwrap_err();
    assert_eq!(refusal.message(), "node node-x is not connected");

    state.grant_lease(lease(&["node-a"], true), LeaseId::from("lease_1"), at(0)).unwrap();
    let refusal = state.create_lease(lease(&["node-b", "node-a"], false)).unwrap_err();
    assert_eq!(refusal.message(), "requested nodes overlap with active lease lease_1");
    assert!(state.create_lease(lease(&["node-b"], true)).is_ok());
    assert_eq!(state.list_leases().len(), 2);
}

#[test]
fn shared_leases_may_overlap_and_exclusive_ones_not() {
    let mut state = cluster(&["node-a"]);
    state.create_lease(lease(&["node-a"], false)).unwrap();
    state.create_lease(lease(&["node-a"], false)).unwrap();
    assert!(matches!(
        state.create_lease(lease(&["node-a"], true)),
        Err(LeaseRefusal::Overlap(_))
    ));
    assert!(!state.release_lease(&LeaseId::from("lease_x")));
}

#[test]
fn run_goes_to_all_nodes_unless_some_are_named() {
    let state = cluster(&["node-a", "node-b"]);
    let mut request = run(&[]);
    request.env.insert("A".to_owned(), "1".to_owned());
    let mut own = Table::new();
    own.insert("A".to_owned(), "2".to_owned());
    own.insert("B".to_owned(), "3".to_owned());
    request.node_env.insert("node-b".to_owned(), own);
    request.timeout = Some(DurationSpec { seconds: 5 });
    let plan = state.plan_run(&request, JobId::from("job_1")).unwrap();
    assert_eq!(plan.job_id.as_str(), "job_1");
    assert_eq!(plan.assignments.len(), 2);
    assert_eq!(plan.orders.len(), 2);
    let (first, second) = (&plan.orders[0], &plan.orders[1]);
    assert_eq!(first.connection, 1);
    assert_eq!(second.connection, 2);
    assert_eq!(first.spec.run.node_id.as_str(), "node-a");
    assert_eq!(first.spec.run.task_id, plan.assignments[0].task_id);
    assert_eq!(first.spec.run.argv, vec!["hostname"]);
    assert_eq!(first.spec.run.cwd, ".");
    assert_eq!(first.spec.run.env.get("A").unwrap(), "1");
    assert!(first.spec.run.env.get("B").is_none());
    assert_eq!(second.spec.run.env.get("A").unwrap(), "2");
    assert_eq!(second.spec.run.env.get("B").unwrap(), "3");
    assert_eq!(second.spec.run.timeout, Some(DurationSpec { seconds: 5 }));
    assert_ne!(plan.assignments[0].task_id, plan.assignments[1].task_id);
    assert!(plan.assignments[0].task_id.as_str().starts_with("task_"));
}

#[test]
fn run_tells_of_nodes_that_are_not_connected() {
    let state = cluster(&["node-a"]);
    let mut request = run(&["node-x", "node-a"]);
    request.cwd = Some("/work".to_owned());
    let plan = state.run_process(&request).unwrap();
    assert!(matches!(&plan.steps[0], RunStep::NotConnected(node) if node.as_str() == "node-x"));
    assert!(matches!(&plan.steps[1], RunStep::Record(task) if task.node_id.as_str() == "node-a"));
    assert_eq!(plan.orders[0].spec.run.cwd, "/work");
    match plan.reply() {
        ClientResponse::RunStarted(started) => {
            assert_eq!(started.job_id, plan.job_id);
            assert_eq!(started.tasks.len(), 1);
        }
        other => panic!("{other:?}"),
    }

    let nothing = state.run_process(&run(&["node-x"])).unwrap();
    assert!(matches!(nothing.reply(), ClientResponse::Error(text) if text == "no connected nodes matched the request"));
    assert!(matches!(nothing.end(), RunEnd::Nothing));
}

#[test]
fn each_node_gets_the_task_at_its_place() {
    let mut state = cluster(&["node-a", "node-b"]);
    let ids = vec![TaskId::from("task_1"), TaskId::from("task_2"), TaskId::from("task_3")];
    let plan = state.plan_with(&run(&["node-b", "node-x", "node-a"]), JobId::from("job_1"), &ids).unwrap();
    let given: Vec<(&str, &str)> = plan
        .assignments
        .iter()
        .map(|task| (task.node_id.as_str(), task.task_id.as_str()))
        .collect();
    assert_eq!(given, vec![("node-b", "task_1"), ("node-a", "task_3")]);
    assert!(matches!(
        plan.steps[1].reply(),
        Some(ClientResponse::Error(text)) if text == "node node-x is not connected"
    ));
    assert!(plan.steps[0].reply().is_none());

    let mut store = SqliteJobStore::in_memory();
    for step in &plan.steps {
        store.take_step(step, at(3));
        state.take_step(step);
    }
    assert_eq!(store.tasks.len(), 2);
    let row = store.tasks.get("task_3").unwrap();
    assert_eq!((row.status.as_str(), row.node_id.as_str()), ("queued", "node-a"));
    let kills: Vec<(u64, String)> = state
        .kill_job(&plan.job_id)
        .into_iter()
        .map(|order| (order.connection, order.task_id.to_string()))
        .collect();
    assert_eq!(kills, vec![(1, "task_3".to_owned()), (2, "task_1".to_owned())]);
    let order = state.kill_job(&plan.job_id).remove(0);
    assert!(matches!(order.message(), CoordinatorMessage::KillTask(task) if task.as_str() == "task_3"));
    let mut plan = plan;
    let order = plan.orders.remove(0);
    assert!(matches!(
        order.message(),
        CoordinatorMessage::StartTask(spec) if spec.run.task_id.as_str() == "task_1"
    ));
    assert_eq!(state.mark_node_lost(&NodeId::from("node-b"), "gone").len(), 4);
}

#[test]
fn runs_are_refused_for_their_reasons() {
    let mut state = cluster(&["node-a", "node-b"]);
    let mut empty = run(&[]);
    empty.argv = Vec::new();
    let refusal = state.run_process(&empty).unwrap_err();
    assert!(matches!(refusal, RunRefusal::EmptyCommand));
    assert_eq!(refusal.message(), "run argv cannot be empty");

    let mut leased = run(&["node-b"]);
    leased.lease_id = Some(LeaseId::from("lease_1"));
    assert_eq!(state.run_process(&leased).unwrap_err().message(), "lease lease_1 was not found");

    state.grant_lease(lease(&["node-a"], true), LeaseId::from("lease_1"), at(0)).unwrap();
    assert_eq!(
        state.run_process(&leased).unwrap_err().message(),
        "run nodes must be a subset of lease lease_1"
    );
}

#[test]
fn leased_run_stays_on_its_lease() {
    let mut state = cluster(&["node-a", "node-b", "node-c"]);
    state.grant_lease(lease(&["node-c", "node-a"], true), LeaseId::from("lease_1"), at(0)).unwrap();
    let mut request = run(&[]);
    request.lease_id = Some(LeaseId::from("lease_1"));
    let plan = state.run_process(&request).unwrap();
    let nodes: Vec<&str> = plan.assignments.iter().map(|task| task.node_id.as_str()).collect();
    assert_eq!(nodes, vec!["node-c", "node-a"]);
    request.nodes = vec![NodeId::from("node-a")];
    assert_eq!(state.run_process(&request).unwrap().assignments.len(), 1);
}

#[test]
fn run_without_wait_is_acknowledged() {
    let mut state = cluster(&["node-a"]);
    let mut request = run(&[]);
    request.wait = false;
    let plan = state.run_process(&request).unwrap();
    apply(&mut state, &plan);
    assert!(matches!(plan.end(), RunEnd::Acknowledge(ClientResponse::Ack)));
    assert_eq!(state.kill_job(&plan.job_id).len(), 1);
}

#[test]
fn waiting_run_hears_of_its_own_tasks_alone() {
    let state = cluster(&["node-a", "node-b"]);
    let plan = state.plan_run(&run(&[]), JobId::from("job_1")).unwrap();
    let mut wait = match plan.end() {
        RunEnd::Wait(wait) => wait,
        other => panic!("{other:?}"),
    };
    let first = plan.assignments[0].task_id.to_string();
    let second = plan.assignments[1].task_id.to_string();
    assert!(!wait.is_done());
    assert!(matches!(
        wait.on_event(CoordinatorEvent::Started(start_event("node-a", &first, "job_1"))),
        Some(ClientResponse::TaskStarted(_))
    ));
    assert!(wait.on_event(CoordinatorEvent::Started(start_event("node-a", "task_x", "job_2"))).is_none());
    assert!(wait.on_event(CoordinatorEvent::Exited(exit_event("node-a", "task_x", "job_2", false))).is_none());
    let failure = WorkerError { node_id: None, task_id: None, message: "elsewhere".to_owned() };
    assert!(matches!(
        wait.on_event(CoordinatorEvent::Error(failure)),
        Some(ClientResponse::Error(text)) if text == "elsewhere"
    ));
    assert!(matches!(
        wait.on_event(CoordinatorEvent::Exited(exit_event("node-a", &first, "job_1", true))),
        Some(ClientResponse::TaskExited(_))
    ));
    // What comes after the end of a task is no longer told.
    let (line, _) = lost_task(&NodeId::from("node-a"), &first, &JobId::from("job_1"), "late", at(4));
    assert!(wait.on_event(CoordinatorEvent::Log(line)).is_none());
    assert!(wait.on_event(CoordinatorEvent::Exited(exit_event("node-a", &first, "job_1", true))).is_none());
    let (line, _) = lost_task(&NodeId::from("node-b"), &second, &JobId::from("job_1"), "text", at(4));
    assert!(matches!(wait.on_event(CoordinatorEvent::Log(line)), Some(ClientResponse::LogLine(_))));
    assert!(!wait.is_done());
    wait.on_event(CoordinatorEvent::Exited(exit_event("node-b", &second, "job_1", false)));
    assert!(wait.is_done());
    let finished = wait.finish();
    assert_eq!(finished.job_id.as_str(), "job_1");
    assert!(!finished.success);
    assert_eq!(finished.exits.len(), 2);
}

fn publish(wait: &mut JobWait, effects: &[Effect]) -> usize {
    let mut told = 0;
    for effect in effects {
        if let Effect::Publish(event) = effect {
            if wait.on_event(event.clone()).is_some() {
                told += 1;
            }
        }
    }
    told
}

#[test]
fn failed_and_lost_tasks_fail_the_waiting_run() {
    let mut state = cluster(&["node-a", "node-b"]);
    let plan = state.plan_run(&run(&[]), JobId::from("job_1")).unwrap();
    apply(&mut state, &plan);
    let mut wait = match plan.end() {
        RunEnd::Wait(wait) => wait,
        other => panic!("{other:?}"),
    };
    let refusal = WorkerError {
        node_id: Some(NodeId::from("node-a")),
        task_id: Some(plan.assignments[0].task_id.clone()),
        message: "denied".to_owned(),
    };
    let effects = state.handle_worker_message(WorkerMessage::Error(refusal), at(5));
    assert_eq!(publish(&mut wait, &effects), 2);
    assert!(!wait.is_done());
    let effects = state.mark_node_lost(&NodeId::from("node-b"), "worker disconnected");
    assert_eq!(publish(&mut wait, &effects), 2);
    assert!(wait.is_done());
    let finished = wait.finish();
    assert!(!finished.success);
    assert_eq!(finished.exits.len(), 2);
    assert!(finished.exits.iter().all(|exit| !exit.success));
}

#[test]
fn job_without_failures_ends_well() {
    let mut wait = JobWait::new(JobId::from("job_1"), &Vec::new());
    assert!(wait.is_done());
    assert!(wait.on_event(CoordinatorEvent::Exited(exit_event("n", "t", "j", false))).is_none());
    assert!(wait.finish().success);
}

#[test]
fn first_message_decides_what_a_connection_is_for() {
    let register = || WireMessage::Worker(WorkerMessage::Register(info("node-a")));
    let ask = || WireMessage::ClientRequest(ClientRequest::ListNodes);
    assert!(matches!(first_step(register(), "", None), FirstStep::Worker(_)));
    assert!(matches!(first_step(register(), "", Some(AuthRole::Worker)), FirstStep::Worker(_)));
    assert!(matches!(first_step(register(), "", Some(AuthRole::Client)), FirstStep::Reject(_)));
    assert!(matches!(first_step(ask(), "", Some(AuthRole::Client)), FirstStep::Client(_)));
    match first_step(ask(), "", Some(AuthRole::Worker)) {
        FirstStep::Reject(e) => {
            assert_eq!(e.message(), "authenticated role does not match first message")
        }
        other => panic!("{other:?}"),
    }
    let ping = WireMessage::Coordinator(CoordinatorMessage::Ping);
    assert!(matches!(
        first_step(ping, "Coordinator(Ping)", None),
        FirstStep::Reply(ClientResponse::Error(text))
            if text == "unexpected first message: Coordinator(Ping)"
    ));
    assert!(ensure_role(None, AuthRole::Worker).is_ok());
    assert!(ensure_role(Some(AuthRole::Client), AuthRole::Worker).is_err());
}

#[test]
fn requests_of_clients_are_routed() {
    let mut state = cluster(&["node-a"]);
    mark(&mut state, "node-a", "task_1", "job_1");
    let job = || JobId::from("job_1");
    assert!(matches!(
        handle_client(&mut state, ClientRequest::ListNodes),
        ClientStep::Reply(ClientResponse::Nodes(nodes)) if nodes.len() == 1
    ));
    assert!(matches!(
        handle_client(&mut state, ClientRequest::ListJobs(ListJobsRequest { limit: 0 })),
        ClientStep::Query(StoreQuery::Jobs { limit: 1 })
    ));
    assert!(matches!(
        handle_client(&mut state, ClientRequest::TailJob(TailJobRequest { job_id: job(), lines: 7 })),
        ClientStep::Query(StoreQuery::Logs { lines: 7, .. })
    ));
    assert!(matches!(
        handle_client(&mut state, ClientRequest::DiagnoseJob(DiagnoseJobRequest { job_id: job(), lines: 0 })),
        ClientStep::Query(StoreQuery::Diagnosis { lines: 1, .. })
    ));
    assert!(matches!(
        handle_client(&mut state, ClientRequest::JobStatus(JobStatusRequest { job_id: job() })),
        ClientStep::Query(StoreQuery::Job { .. })
    ));
    assert!(matches!(
        handle_client(&mut state, ClientRequest::KillJob(KillJobRequest { job_id: job() })),
        ClientStep::Kill { orders, reply: ClientResponse::Ack } if orders.len() == 1
    ));
    assert!(matches!(handle_client(&mut state, ClientRequest::RunProcess(run(&[]))), ClientStep::Run(_)));
    let created = handle_client(&mut state, ClientRequest::CreateLease(lease(&["node-a"], true)));
    let lease_id = match created {
        ClientStep::Reply(ClientResponse::LeaseCreated(s)) => s.lease_id,
        other => panic!("{other:?}"),
    };
    assert!(matches!(
        handle_client(&mut state, ClientRequest::CreateLease(lease(&["node-a"], true))),
        ClientStep::Reply(ClientResponse::Error(text))
            if text == format!("requested nodes overlap with active lease {}", lease_id.as_str())
    ));
    assert!(matches!(
        handle_client(&mut state, ClientRequest::ListLeases),
        ClientStep::Reply(ClientResponse::Leases(leases)) if leases.len() == 1
    ));
    let release = |id: LeaseId| ClientRequest::ReleaseLease(ReleaseLeaseRequest { lease_id: id });
    assert!(matches!(
        handle_client(&mut state, release(lease_id.clone())),
        ClientStep::Reply(ClientResponse::Ack)
    ));
    assert!(matches!(
        handle_client(&mut state, release(LeaseId::from("lease_9"))),
        ClientStep::Reply(ClientResponse::Error(text)) if text == "lease lease_9 was not found"
    ));
}

#[test]
fn questions_are_answered_from_the_store() {
    let mut store = SqliteJobStore::in_memory();
    let job = JobId::from("job_1");
    let unknown = StoreQuery::Job { job_id: job.clone() };
    assert!(matches!(
        unknown.answer(&store),
        ClientResponse::Error(text) if text == "job job_1 was not found"
    ));
    let diagnosis = StoreQuery::Diagnosis { job_id: job.clone(), lines: 5 };
    assert!(matches!(
        diagnosis.answer(&store),
        ClientResponse::Error(text) if text == "job job_1 was not found"
    ));
    store.record_task_exited(&exit_event("node-a", "task_1", "job_1", true));
    let line = LogLine {
        job_id: job.clone(),
        task_id: TaskId::from("task_1"),
        node_id: NodeId::from("node-a"),
        stream: LogStream::Stdout,
        timestamp: at(1),
        line: "hello".to_owned(),
        offset: 0,
    };
    store.record_log_line(&line);
    assert!(matches!(unknown.answer(&store), ClientResponse::Job(job) if job.status == "succeeded"));
    assert!(matches!(
        diagnosis.answer(&store),
        ClientResponse::JobDiagnosis(d) if d.summary == "job job_1 succeeded across 1 task(s)"
    ));
    assert!(matches!(
        StoreQuery::Jobs { limit: 3 }.answer(&store),
        ClientResponse::Jobs(jobs) if jobs.len() == 1
    ));
    assert!(matches!(
        StoreQuery::Logs { job_id: job, lines: 3 }.answer(&store),
        ClientResponse::Logs(logs) if logs[0].line == "hello"
    ));
}
