use multinode_controller::diagnosis::build_job_diagnosis;
use multinode_controller::ids::{JobId, NodeId, TaskId};
use multinode_controller::jobstore::{parse_stream, LogRow, SqliteJobStore, TaskRow};
use multinode_controller::protocol::{
    JobSummary, LogLine, LogStream, NodeInfo, TaskExited, TaskStarted, TaskSummary,
};
use multinode_controller::summaries::job_summary;
use multinode_controller::time::Timestamp;

fn at(secs: i64) -> Timestamp {
    Timestamp::from_parts(secs, 0).unwrap()
}

fn started(job: &str, task: &str, secs: i64) -> TaskStarted {
    TaskStarted {
        job_id: JobId::from(job),
        task_id: TaskId::from(task),
        node_id: NodeId::from("node-a"),
        pid: Some(7),
        timestamp: at(secs),
    }
}

fn exited(job: &str, task: &str, success: bool, secs: i64) -> TaskExited {
    TaskExited {
        job_id: JobId::from(job),
        task_id: TaskId::from(task),
        node_id: NodeId::from("node-a"),
        exit_code: Some(if success { 0 } else { 3 }),
        success,
        timestamp: at(secs),
    }
}

fn line(job: &str, text: &str, stream: LogStream, offset: u64) -> LogLine {
    LogLine {
        job_id: JobId::from(job),
        task_id: TaskId::from("task_1"),
        node_id: NodeId::from("node-a"),
        stream,
        timestamp: at(100),
        line: text.to_owned(),
        offset,
    }
}

fn dispatch(store: &mut SqliteJobStore, job: &str, task: &str, secs: i64) {
    store.record_task_dispatched(
        &JobId::from(job),
        &TaskId::from(task),
        &NodeId::from("node-a"),
        at(secs),
    );
}

fn texts(lines: &[LogLine]) -> Vec<&str> {
    lines.iter().map(|line| line.line.as_str()).collect()
}

#[test]
fn task_goes_from_queued_to_running_to_its_end() {
    let mut store = SqliteJobStore::in_memory();
    let job = JobId::from("job_1");
    assert!(store.get_job(&job).is_none());

    dispatch(&mut store, "job_1", "task_1", 10);
    let queued = store.get_job(&job).unwrap();
    assert_eq!(queued.status, "running");
    assert_eq!(queued.tasks[0].status, "queued");
    assert_eq!(queued.tasks[0].created_at, Some(at(10)));
    assert_eq!(queued.tasks[0].started_at, None);

    store.record_task_started(&started("job_1", "task_1", 11));
    let running = store.get_job(&job).unwrap();
    assert_eq!(running.tasks[0].status, "running");
    assert_eq!(running.tasks[0].created_at, Some(at(10)));
    assert_eq!(running.tasks[0].started_at, Some(at(11)));

    store.record_task_exited(&exited("job_1", "task_1", true, 12));
    let done = store.get_job(&job).unwrap();
    assert_eq!(done.status, "succeeded");
    assert_eq!(done.tasks[0].status, "succeeded");
    assert_eq!(done.tasks[0].exited_at, Some(at(12)));
    assert_eq!(done.tasks[0].exit_code, Some(0));
    assert_eq!(done.created_at, Some(at(10)));
    assert_eq!(done.updated_at, Some(at(12)));
}

#[test]
fn events_of_unknown_tasks_make_rows() {
    let mut store = SqliteJobStore::in_memory();
    store.record_task_started(&started("job_1", "task_1", 20));
    store.record_task_exited(&exited("job_1", "task_2", false, 21));
    let job = store.get_job(&JobId::from("job_1")).unwrap();
    assert_eq!(job.status, "running");
    assert_eq!(job.tasks[0].created_at, Some(at(20)));
    assert_eq!(job.tasks[0].started_at, Some(at(20)));
    assert_eq!(job.tasks[1].created_at, Some(at(21)));
    assert_eq!(job.tasks[1].started_at, None);
    assert_eq!(job.tasks[1].exited_at, Some(at(21)));
    assert_eq!(job.tasks[1].exit_code, Some(3));
}

#[test]
fn dispatch_moves_a_task_and_keeps_its_creation() {
    let mut store = SqliteJobStore::in_memory();
    store.record_task_exited(&exited("job_1", "task_1", true, 5));
    dispatch(&mut store, "job_2", "task_1", 9);
    assert!(store.get_job(&JobId::from("job_1")).is_none());
    let moved = store.get_job(&JobId::from("job_2")).unwrap();
    assert_eq!(moved.tasks[0].status, "queued");
    assert_eq!(moved.tasks[0].created_at, Some(at(5)));
    assert_eq!(moved.tasks[0].exited_at, Some(at(5)));
    // A start leaves job and node as they are kept.
    store.record_task_started(&started("job_3", "task_1", 10));
    assert!(store.get_job(&JobId::from("job_3")).is_none());
}

#[test]
fn tasks_are_listed_by_time_and_identifier() {
    let mut store = SqliteJobStore::in_memory();
    dispatch(&mut store, "job_1", "task_b", 30);
    dispatch(&mut store, "job_1", "task_a", 30);
    dispatch(&mut store, "job_1", "task_c", 29);
    dispatch(&mut store, "job_2", "task_d", 1);
    let tasks = store.list_tasks_for_job(&JobId::from("job_1"));
    let names: Vec<&str> = tasks.iter().map(|task| task.task_id.as_str()).collect();
    assert_eq!(names, vec!["task_c", "task_a", "task_b"]);
}

#[test]
fn jobs_are_listed_latest_first_up_to_a_limit() {
    let mut store = SqliteJobStore::in_memory();
    dispatch(&mut store, "job_1", "task_1", 10);
    dispatch(&mut store, "job_2", "task_2", 20);
    dispatch(&mut store, "job_3", "task_3", 15);
    store.record_task_exited(&exited("job_1", "task_1", true, 40));
    dispatch(&mut store, "job_1", "task_4", 12);
    let names = |jobs: Vec<JobSummary>| -> Vec<String> {
        jobs.into_iter().map(|job| job.job_id.to_string()).collect()
    };
    assert_eq!(names(store.list_jobs(10)), vec!["job_1", "job_2", "job_3"]);
    assert_eq!(names(store.list_jobs(2)), vec!["job_1", "job_2"]);
    assert!(store.list_jobs(0).is_empty());
    assert_eq!(store.list_jobs(1)[0].tasks.len(), 2);
    assert!(SqliteJobStore::in_memory().list_jobs(5).is_empty());
}

#[test]
fn rows_without_times_come_first() {
    let mut store = SqliteJobStore::in_memory();
    dispatch(&mut store, "job_1", "task_a", 30);
    let row = TaskRow {
        job_id: JobId::from("job_1"),
        node_id: NodeId::from("node-a"),
        status: "failed".to_owned(),
        created_at: None,
        started_at: None,
        exited_at: None,
        exit_code: None,
    };
    store.tasks.insert("task_z".to_owned(), row);
    let tasks = store.list_tasks_for_job(&JobId::from("job_1"));
    assert_eq!(tasks[0].task_id.as_str(), "task_z");
    assert_eq!(tasks[0].created_at, None);
}

#[test]
fn last_log_lines_come_in_order() {
    let mut store = SqliteJobStore::in_memory();
    let job = JobId::from("job_1");
    for (i, text) in ["one", "two", "three", "four"].into_iter().enumerate() {
        store.record_log_line(&line("job_1", text, LogStream::Stdout, i as u64));
        store.record_log_line(&line("job_2", "other", LogStream::Stderr, 0));
    }
    assert_eq!(texts(&store.tail_logs(&job, 2)), vec!["three", "four"]);
    assert_eq!(texts(&store.tail_logs(&job, 99)), vec!["one", "two", "three", "four"]);
    assert!(store.tail_logs(&job, 0).is_empty());
    assert!(store.tail_logs(&JobId::from("job_3"), 5).is_empty());
}

#[test]
fn log_lines_are_read_back_as_they_were() {
    let mut store = SqliteJobStore::in_memory();
    let kept = line("job_1", "tab\there", LogStream::System, u64::MAX);
    store.record_log_line(&kept);
    assert_eq!(store.logs[0].offset, -1);
    assert_eq!(store.logs[0].stream, "system");
    let read = &store.tail_logs(&JobId::from("job_1"), 1)[0];
    assert_eq!(read.job_id, kept.job_id);
    assert_eq!(read.task_id, kept.task_id);
    assert_eq!(read.node_id, kept.node_id);
    assert_eq!(read.stream, kept.stream);
    assert_eq!(read.timestamp, kept.timestamp);
    assert_eq!(read.line, kept.line);
    assert_eq!(read.offset, kept.offset);
}

#[test]
fn log_lines_without_a_time_have_the_current_one() {
    let mut store = SqliteJobStore::in_memory();
    store.logs.push(LogRow {
        job_id: JobId::from("job_1"),
        task_id: TaskId::from("task_1"),
        node_id: NodeId::from("node-a"),
        stream: "unheard of".to_owned(),
        timestamp: "not a time".to_owned(),
        line: "text".to_owned(),
        offset: 3,
    });
    let read = store.tail_logs_at(&JobId::from("job_1"), 1, at(77));
    assert_eq!(read[0].timestamp, at(77));
    assert_eq!(read[0].stream, LogStream::System);
}

#[test]
fn streams_are_read_back_by_name() {
    for stream in [LogStream::Stdout, LogStream::Stderr, LogStream::System] {
        assert_eq!(parse_stream(&stream.to_string()), stream);
    }
    assert_eq!(parse_stream("STDOUT"), LogStream::System);
}

#[test]
fn nodes_are_kept_by_identifier() {
    let mut store = SqliteJobStore::in_memory();
    let node = NodeInfo::started("node-a".to_owned(), "host".to_owned(), "linux", "x86_64", at(0));
    store.upsert_node(&node, "{}".to_owned());
    store.upsert_node(&node, "{\"v\":2}".to_owned());
    assert_eq!(store.nodes.len(), 1);
    let row = store.nodes.get("node-a").unwrap();
    assert_eq!(row.node_name, "node-a");
    assert_eq!(row.last_seen, "1970-01-01T00:00:00+00:00");
    assert_eq!(row.payload, "{\"v\":2}");
}

fn task(status: &str) -> TaskSummary {
    TaskSummary {
        job_id: JobId::from("job_9"),
        task_id: TaskId::from("task_1"),
        node_id: NodeId::from("node-a"),
        status: status.to_owned(),
        created_at: None,
        started_at: None,
        exited_at: None,
        exit_code: None,
    }
}

#[test]
fn status_of_a_job_follows_from_its_tasks() {
    assert_eq!(job_summary(vec![task("succeeded"), task("queued")]).status, "running");
    assert_eq!(job_summary(vec![task("failed"), task("running")]).status, "running");
    assert_eq!(job_summary(vec![task("succeeded"), task("succeeded")]).status, "succeeded");
    assert_eq!(job_summary(vec![task("succeeded"), task("failed")]).status, "failed");
    assert_eq!(job_summary(vec![task("lost")]).status, "failed");
    assert_eq!(job_summary(vec![task("lost")]).job_id, JobId::from("job_9"));
    let empty = job_summary(Vec::new());
    assert_eq!(empty.status, "succeeded");
    assert!(empty.job_id.as_str().starts_with("job_"));
    assert_eq!(empty.created_at, None);
    assert_eq!(empty.updated_at, None);
}

#[test]
fn times_of_a_job_span_its_tasks() {
    let mut first = task("succeeded");
    first.created_at = Some(at(5));
    first.exited_at = Some(at(9));
    let mut second = task("succeeded");
    second.created_at = Some(at(4));
    second.started_at = Some(at(8));
    let job = job_summary(vec![first, second, task("succeeded")]);
    assert_eq!(job.created_at, Some(at(4)));
    assert_eq!(job.updated_at, Some(at(9)));
}

#[test]
fn diagnosis_names_what_the_logs_show() {
    let mut failed = task("failed");
    failed.exit_code = Some(1);
    let job = job_summary(vec![failed, task("succeeded")]);
    let logs = vec![
        line("job_9", "all fine", LogStream::Stdout, 0),
        line("job_9", "RuntimeError: CUDA out of memory", LogStream::Stdout, 9),
        line("job_9", "warning", LogStream::Stderr, 0),
    ];
    let diagnosis = build_job_diagnosis(job, &logs);
    assert_eq!(diagnosis.status, "failed");
    assert_eq!(diagnosis.summary, "job job_9 failed with 1 failed task(s) out of 2");
    assert_eq!(
        diagnosis.hints,
        vec!["CUDA OOM detected; reduce batch size, sequence length, or per-process GPU memory use."]
    );
    assert_eq!(
        texts(&diagnosis.recent_errors),
        vec!["RuntimeError: CUDA out of memory", "warning"]
    );
}

#[test]
fn diagnosis_without_a_pattern_falls_back() {
    let hint = |statuses: Vec<&str>| -> (String, String) {
        let tasks = statuses.into_iter().map(task).collect();
        let mut diagnosis = build_job_diagnosis(job_summary(tasks), &Vec::new());
        assert_eq!(diagnosis.hints.len(), 1);
        (diagnosis.hints.remove(0), diagnosis.summary)
    };
    assert_eq!(
        hint(vec!["failed"]).0,
        "One or more tasks failed; inspect recent stderr and worker logs for the root cause."
    );
    assert_eq!(
        hint(vec!["running"]),
        (
            "Job is still running or queued; tail logs and check node liveness before intervening."
                .to_owned(),
            "job job_9 is running with 1 running/queued task(s)".to_owned()
        )
    );
    assert_eq!(
        hint(vec!["succeeded"]),
        (
            "No obvious failure pattern found in recent logs.".to_owned(),
            "job job_9 succeeded across 1 task(s)".to_owned()
        )
    );
    assert_eq!(hint(vec!["lost"]).1, "job job_9 status is failed");
}

#[test]
fn diagnosis_tells_a_timeout_from_a_network_failure() {
    let hints = |text: &str| -> Vec<String> {
        let logs = vec![line("job_9", text, LogStream::System, 0)];
        build_job_diagnosis(job_summary(vec![task("failed")]), &logs).hints
    };
    assert_eq!(
        hints("task timed out after 5s; terminating process group"),
        vec!["Runtime timeout killed the job; increase --timeout-seconds or inspect why the task exceeded its limit."]
    );
    assert_eq!(
        hints("connect: Connection refused"),
        vec!["Network connection issue detected; verify ports, hostnames, firewall rules, and rendezvous address."]
    );
    assert_eq!(hints("sh: foo: not found").len(), 1);
    assert_eq!(hints("No module named torch").len(), 1);
    assert_eq!(hints("Permission denied").len(), 1);
    assert_eq!(hints("disk quota exceeded").len(), 1);
    assert_eq!(hints("NCCL WARN timed out").len(), 2);
}

#[test]
fn diagnosis_keeps_the_last_twenty_errors() {
    let logs: Vec<LogLine> =
        (0..30).map(|i| line("job_9", &format!("error {i}"), LogStream::Stdout, i)).collect();
    let diagnosis = build_job_diagnosis(job_summary(vec![task("failed")]), &logs);
    assert_eq!(diagnosis.recent_errors.len(), 20);
    assert_eq!(diagnosis.recent_errors[0].line, "error 10");
    assert_eq!(diagnosis.recent_errors[19].line, "error 29");
}
