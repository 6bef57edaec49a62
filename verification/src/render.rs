//! What a client shows of the coordinator's answers, line by line.
use vstd::prelude::*;
use vstd::string::StringExecFns;

use crate::coordinator::ids;
use crate::ids::NodeId;
use crate::protocol::{
    ClientResponse, JobDiagnosis, JobSummary, LeaseSummary, LogLine, LogStream, NodeSummary,
    RunStarted, TaskAssignment, TaskExited, TaskSummary,
};
use crate::text::{
    decimal, decimal_text, enclosed, join, joined, prefixed, signed, signed_text, texts,
};
use crate::time::Timestamp;

verus! {

/// `true` or `false`.
pub open spec fn bool_text(b: bool) -> Seq<char> {
    if b {
        "true"@
    } else {
        "false"@
    }
}

/// `true` or `false`.
fn show_bool(b: bool) -> (r: String)
    ensures
        r@ == bool_text(b),
{
    if b {
        "true".to_owned()
    } else {
        "false".to_owned()
    }
}

/// A point in time, or a dash.
pub open spec fn time_text(t: Option<Timestamp>) -> Seq<char> {
    match t {
        Some(t) => t.text(),
        None => "-"@,
    }
}

/// A point in time, or a dash.
fn show_time(t: Option<Timestamp>) -> (r: String)
    ensures
        r@ == time_text(t),
{
    match t {
        Some(t) => t.to_rfc3339(),
        None => "-".to_owned(),
    }
}

/// An exit code, or a dash.
pub open spec fn exit_text(code: Option<i32>) -> Seq<char> {
    match code {
        Some(code) => signed_text(code as int),
        None => "-"@,
    }
}

/// An exit code, or a dash.
fn show_exit(code: Option<i32>) -> (r: String)
    ensures
        r@ == exit_text(code),
{
    match code {
        Some(code) => signed(code),
        None => "-".to_owned(),
    }
}

/// Cells with tabs between them.
pub open spec fn row(cells: Seq<Seq<char>>) -> Seq<char> {
    joined(cells, "\t"@)
}

/// Four cells with tabs between them.
fn four_cells(a: String, b: String, c: String, d: String) -> (r: String)
    ensures
        r@ == row(seq![a@, b@, c@, d@]),
{
    let mut cells: Vec<String> = Vec::new();
    let ghost shown = seq![a@, b@, c@, d@];
    cells.push(a);
    cells.push(b);
    cells.push(c);
    cells.push(d);
    proof {
        assert(texts(cells@) =~= shown);
    }
    join(&cells, "\t")
}

/// Five cells with tabs between them.
fn five_cells(a: String, b: String, c: String, d: String, e: String) -> (r: String)
    ensures
        r@ == row(seq![a@, b@, c@, d@, e@]),
{
    let mut cells: Vec<String> = Vec::new();
    let ghost shown = seq![a@, b@, c@, d@, e@];
    cells.push(a);
    cells.push(b);
    cells.push(c);
    cells.push(d);
    cells.push(e);
    proof {
        assert(texts(cells@) =~= shown);
    }
    join(&cells, "\t")
}

/// The row of a node.
pub open spec fn node_row(node: NodeSummary) -> Seq<char> {
    row(
        seq![
            node.node_id@,
            node.hostname@,
            bool_text(node.online),
            decimal_text(node.running_tasks as nat),
            node.last_seen.text(),
        ],
    )
}

/// The rows of nodes.
pub open spec fn node_rows(nodes: Seq<NodeSummary>) -> Seq<Seq<char>> {
    nodes.map_values(|node: NodeSummary| node_row(node))
}

/// The table of nodes, or that there are none.
pub open spec fn node_lines(nodes: Seq<NodeSummary>) -> Seq<Seq<char>> {
    if nodes.len() == 0 {
        seq!["no workers connected"@]
    } else {
        seq!["NODE\tHOSTNAME\tONLINE\tTASKS\tLAST_SEEN"@] + node_rows(nodes)
    }
}

/// Adds a line.
fn add_line(lines: &mut Vec<String>, line: String)
    ensures
        texts(final(lines)@) == texts(old(lines)@).push(line@),
{
    let ghost before = lines@;
    lines.push(line);
    proof {
        assert(texts(lines@) =~= texts(before).push(line@));
    }
}

/// Shows nodes.
pub fn print_nodes(nodes: &Vec<NodeSummary>) -> (r: Vec<String>)
    ensures
        texts(r@) == node_lines(nodes@),
{
    let mut lines: Vec<String> = Vec::new();
    if nodes.len() == 0 {
        add_line(&mut lines, "no workers connected".to_owned());
        proof {
            assert(texts(lines@) =~= node_lines(nodes@));
        }
        return lines;
    }
    add_line(&mut lines, "NODE\tHOSTNAME\tONLINE\tTASKS\tLAST_SEEN".to_owned());
    let ghost head = texts(lines@);
    proof {
        assert(head =~= seq!["NODE\tHOSTNAME\tONLINE\tTASKS\tLAST_SEEN"@]);
        assert(head + node_rows(nodes@.take(0)) =~= head);
    }
    for i in 0..nodes.len()
        invariant
            texts(lines@) == head + node_rows(nodes@.take(i as int)),
    {
        let node = &nodes[i];
        let line = five_cells(
            node.node_id.to_string(),
            node.hostname.clone(),
            show_bool(node.online),
            decimal(node.running_tasks as u64),
            node.last_seen.to_rfc3339(),
        );
        proof {
            assert(node_rows(nodes@.take(i + 1)) =~= node_rows(nodes@.take(i as int)).push(line@));
            assert(head + node_rows(nodes@.take(i + 1)) =~= (head + node_rows(
                nodes@.take(i as int),
            )).push(line@));
        }
        add_line(&mut lines, line);
    }
    proof {
        assert(nodes@.take(nodes.len() as int) =~= nodes@);
    }
    lines
}

/// The row of a job.
pub open spec fn job_row(job: JobSummary) -> Seq<char> {
    row(
        seq![
            job.job_id@,
            job.status@,
            decimal_text(job.tasks@.len()),
            time_text(job.updated_at),
        ],
    )
}

/// The rows of jobs.
pub open spec fn job_rows(jobs: Seq<JobSummary>) -> Seq<Seq<char>> {
    jobs.map_values(|job: JobSummary| job_row(job))
}

/// The table of jobs.
pub open spec fn job_lines(jobs: Seq<JobSummary>) -> Seq<Seq<char>> {
    seq!["JOB\tSTATUS\tTASKS\tUPDATED"@] + job_rows(jobs)
}

/// The row of a job.
fn show_job(job: &JobSummary) -> (r: String)
    ensures
        r@ == job_row(*job),
{
    four_cells(
        job.job_id.to_string(),
        job.status.clone(),
        decimal(job.tasks.len() as u64),
        show_time(job.updated_at),
    )
}

/// Shows jobs.
pub fn print_jobs(jobs: &Vec<JobSummary>) -> (r: Vec<String>)
    ensures
        texts(r@) == job_lines(jobs@),
{
    let mut lines: Vec<String> = Vec::new();
    add_line(&mut lines, "JOB\tSTATUS\tTASKS\tUPDATED".to_owned());
    let ghost head = texts(lines@);
    proof {
        assert(head =~= seq!["JOB\tSTATUS\tTASKS\tUPDATED"@]);
        assert(head + job_rows(jobs@.take(0)) =~= head);
    }
    for i in 0..jobs.len()
        invariant
            texts(lines@) == head + job_rows(jobs@.take(i as int)),
    {
        let line = show_job(&jobs[i]);
        proof {
            assert(job_rows(jobs@.take(i + 1)) =~= job_rows(jobs@.take(i as int)).push(line@));
            assert(head + job_rows(jobs@.take(i + 1)) =~= (head + job_rows(
                jobs@.take(i as int),
            )).push(line@));
        }
        add_line(&mut lines, line);
    }
    proof {
        assert(jobs@.take(jobs.len() as int) =~= jobs@);
    }
    lines
}

/// The row of a task.
pub open spec fn task_row(task: TaskSummary) -> Seq<char> {
    row(seq![task.task_id@, task.node_id@, task.status@, exit_text(task.exit_code)])
}

/// The rows of tasks.
pub open spec fn task_rows(tasks: Seq<TaskSummary>) -> Seq<Seq<char>> {
    tasks.map_values(|task: TaskSummary| task_row(task))
}

/// Adds the table of tasks.
fn add_tasks(lines: &mut Vec<String>, tasks: &Vec<TaskSummary>)
    ensures
        texts(final(lines)@) == texts(old(lines)@).push("TASK\tNODE\tSTATUS\tEXIT"@) + task_rows(
            tasks@,
        ),
{
    add_line(lines, "TASK\tNODE\tSTATUS\tEXIT".to_owned());
    let ghost head = texts(lines@);
    proof {
        assert(head + task_rows(tasks@.take(0)) =~= head);
    }
    for i in 0..tasks.len()
        invariant
            texts(lines@) == head + task_rows(tasks@.take(i as int)),
    {
        let task = &tasks[i];
        let line = four_cells(
            task.task_id.to_string(),
            task.node_id.to_string(),
            task.status.clone(),
            show_exit(task.exit_code),
        );
        proof {
            assert(task_rows(tasks@.take(i + 1)) =~= task_rows(tasks@.take(i as int)).push(line@));
            assert(head + task_rows(tasks@.take(i + 1)) =~= (head + task_rows(
                tasks@.take(i as int),
            )).push(line@));
        }
        add_line(lines, line);
    }
    proof {
        assert(tasks@.take(tasks.len() as int) =~= tasks@);
    }
}

/// The state of a job: its row and the table of its tasks.
pub open spec fn status_lines(job: JobSummary) -> Seq<Seq<char>> {
    seq!["JOB\tSTATUS\tTASKS\tUPDATED"@, job_row(job), "TASK\tNODE\tSTATUS\tEXIT"@] + task_rows(
        job.tasks@,
    )
}

/// Shows the state of a job.
pub fn print_job_status(job: &JobSummary) -> (r: Vec<String>)
    ensures
        texts(r@) == status_lines(*job),
{
    let mut lines: Vec<String> = Vec::new();
    add_line(&mut lines, "JOB\tSTATUS\tTASKS\tUPDATED".to_owned());
    add_line(&mut lines, show_job(job));
    add_tasks(&mut lines, &job.tasks);
    proof {
        assert(texts(lines@) =~= status_lines(*job));
    }
    lines
}

/// A log line with its node, task and stream.
pub open spec fn log_row(line: LogLine) -> Seq<char> {
    "["@ + line.node_id@ + " "@ + line.task_id@ + " "@ + line.stream.name() + "] "@ + line.line@
}

/// Log lines with their nodes, tasks and streams.
pub open spec fn log_rows(lines: Seq<LogLine>) -> Seq<Seq<char>> {
    lines.map_values(|line: LogLine| log_row(line))
}

/// A log line with its node, task and stream.
pub fn print_log_line(line: &LogLine) -> (r: String)
    ensures
        r@ == log_row(*line),
{
    let mut r = enclosed("[", line.node_id.as_str(), " ");
    r.append(line.task_id.as_str());
    r.append(" ");
    r.append(line.stream.to_string().as_str());
    r.append("] ");
    r.append(line.line.as_str());
    r
}

/// Adds log lines.
fn add_logs(lines: &mut Vec<String>, logs: &Vec<LogLine>)
    ensures
        texts(final(lines)@) == texts(old(lines)@) + log_rows(logs@),
{
    let ghost head = texts(lines@);
    proof {
        assert(head + log_rows(logs@.take(0)) =~= head);
    }
    for i in 0..logs.len()
        invariant
            texts(lines@) == head + log_rows(logs@.take(i as int)),
    {
        let line = print_log_line(&logs[i]);
        proof {
            assert(log_rows(logs@.take(i + 1)) =~= log_rows(logs@.take(i as int)).push(line@));
            assert(head + log_rows(logs@.take(i + 1)) =~= (head + log_rows(
                logs@.take(i as int),
            )).push(line@));
        }
        add_line(lines, line);
    }
    proof {
        assert(logs@.take(logs.len() as int) =~= logs@);
    }
}

/// Shows log lines.
pub fn print_logs(logs: &Vec<LogLine>) -> (r: Vec<String>)
    ensures
        texts(r@) == log_rows(logs@),
{
    let mut lines: Vec<String> = Vec::new();
    add_logs(&mut lines, logs);
    proof {
        assert(texts(lines@) =~= log_rows(logs@));
    }
    lines
}

/// The identifiers of nodes.
fn id_texts(nodes: &Vec<NodeId>) -> (r: Vec<String>)
    ensures
        texts(r@) == ids(nodes@),
{
    let mut r: Vec<String> = Vec::new();
    for i in 0..nodes.len()
        invariant
            texts(r@) == ids(nodes@.take(i as int)),
    {
        add_line(&mut r, nodes[i].to_string());
        proof {
            assert(ids(nodes@.take(i + 1)) =~= ids(nodes@.take(i as int)).push(nodes@[i as int]@));
        }
    }
    proof {
        assert(nodes@.take(nodes.len() as int) =~= nodes@);
    }
    r
}

/// A number, or a dash.
pub open spec fn count_text(n: Option<u32>) -> Seq<char> {
    match n {
        Some(n) => decimal_text(n as nat),
        None => "-"@,
    }
}

/// A number, or a dash.
fn show_count(n: Option<u32>) -> (r: String)
    ensures
        r@ == count_text(n),
{
    match n {
        Some(n) => decimal(n as u64),
        None => "-".to_owned(),
    }
}

/// The row of a lease.
pub open spec fn lease_row(lease: LeaseSummary) -> Seq<char> {
    row(
        seq![
            lease.lease_id@,
            joined(ids(lease.nodes@), ","@),
            count_text(lease.gpus_per_node),
            bool_text(lease.exclusive),
            lease.created_at.text(),
        ],
    )
}

/// The rows of leases.
pub open spec fn lease_rows(leases: Seq<LeaseSummary>) -> Seq<Seq<char>> {
    leases.map_values(|lease: LeaseSummary| lease_row(lease))
}

/// The table of leases, or that there are none.
pub open spec fn lease_lines(leases: Seq<LeaseSummary>) -> Seq<Seq<char>> {
    if leases.len() == 0 {
        seq!["no active leases"@]
    } else {
        seq!["LEASE\tNODES\tGPUS_PER_NODE\tEXCLUSIVE\tCREATED"@] + lease_rows(leases)
    }
}

/// The row of a lease.
fn show_lease(lease: &LeaseSummary) -> (r: String)
    ensures
        r@ == lease_row(*lease),
{
    five_cells(
        lease.lease_id.to_string(),
        join(&id_texts(&lease.nodes), ","),
        show_count(lease.gpus_per_node),
        show_bool(lease.exclusive),
        lease.created_at.to_rfc3339(),
    )
}

/// Shows leases.
pub fn print_leases(leases: &Vec<LeaseSummary>) -> (r: Vec<String>)
    ensures
        texts(r@) == lease_lines(leases@),
{
    let mut lines: Vec<String> = Vec::new();
    if leases.len() == 0 {
        add_line(&mut lines, "no active leases".to_owned());
        proof {
            assert(texts(lines@) =~= lease_lines(leases@));
        }
        return lines;
    }
    add_line(&mut lines, "LEASE\tNODES\tGPUS_PER_NODE\tEXCLUSIVE\tCREATED".to_owned());
    let ghost head = texts(lines@);
    proof {
        assert(head =~= seq!["LEASE\tNODES\tGPUS_PER_NODE\tEXCLUSIVE\tCREATED"@]);
        assert(head + lease_rows(leases@.take(0)) =~= head);
    }
    for i in 0..leases.len()
        invariant
            texts(lines@) == head + lease_rows(leases@.take(i as int)),
    {
        let line = show_lease(&leases[i]);
        proof {
            assert(lease_rows(leases@.take(i + 1)) =~= lease_rows(leases@.take(i as int)).push(
                line@,
            ));
            assert(head + lease_rows(leases@.take(i + 1)) =~= (head + lease_rows(
                leases@.take(i as int),
            )).push(line@));
        }
        add_line(&mut lines, line);
    }
    proof {
        assert(leases@.take(leases.len() as int) =~= leases@);
    }
    lines
}

/// A hint as an item of a list.
pub open spec fn hint_rows(hints: Seq<String>) -> Seq<Seq<char>> {
    hints.map_values(|hint: String| "- "@ + hint@)
}

/// What is shown of a diagnosis.
pub open spec fn diagnosis_lines(d: JobDiagnosis) -> Seq<Seq<char>> {
    let head = seq![
        "JOB\tSTATUS\tSUMMARY"@,
        d.job_id@ + "\t"@ + d.status@ + "\t"@ + d.summary@,
        "TASK\tNODE\tSTATUS\tEXIT"@,
    ] + task_rows(d.tasks@) + seq!["HINTS"@] + hint_rows(d.hints@);
    if d.recent_errors@.len() == 0 {
        head
    } else {
        head + seq!["RECENT_ERRORS"@] + log_rows(d.recent_errors@)
    }
}

/// Adds hints.
fn add_hints(lines: &mut Vec<String>, hints: &Vec<String>)
    ensures
        texts(final(lines)@) == texts(old(lines)@) + hint_rows(hints@),
{
    let ghost head = texts(lines@);
    proof {
        assert(head + hint_rows(hints@.take(0)) =~= head);
    }
    for i in 0..hints.len()
        invariant
            texts(lines@) == head + hint_rows(hints@.take(i as int)),
    {
        let line = prefixed("- ", hints[i].as_str());
        proof {
            assert(hint_rows(hints@.take(i + 1)) =~= hint_rows(hints@.take(i as int)).push(line@));
            assert(head + hint_rows(hints@.take(i + 1)) =~= (head + hint_rows(
                hints@.take(i as int),
            )).push(line@));
        }
        add_line(lines, line);
    }
    proof {
        assert(hints@.take(hints.len() as int) =~= hints@);
    }
}

/// Shows a diagnosis.
pub fn print_job_diagnosis(d: &JobDiagnosis) -> (r: Vec<String>)
    ensures
        texts(r@) == diagnosis_lines(*d),
{
    let mut lines: Vec<String> = Vec::new();
    add_line(&mut lines, "JOB\tSTATUS\tSUMMARY".to_owned());
    let mut line = enclosed(d.job_id.as_str(), "\t", d.status.as_str());
    line.append("\t");
    line.append(d.summary.as_str());
    add_line(&mut lines, line);
    add_tasks(&mut lines, &d.tasks);
    add_line(&mut lines, "HINTS".to_owned());
    add_hints(&mut lines, &d.hints);
    if d.recent_errors.len() > 0 {
        add_line(&mut lines, "RECENT_ERRORS".to_owned());
        add_logs(&mut lines, &d.recent_errors);
    }
    proof {
        assert(texts(lines@) =~= diagnosis_lines(*d));
    }
    lines
}

/// A task with its node.
pub open spec fn task_names(tasks: Seq<TaskAssignment>) -> Seq<Seq<char>> {
    tasks.map_values(|task: TaskAssignment| task.node_id@ + ":"@ + task.task_id@)
}

/// The line that says that a run has started.
pub open spec fn started_row(started: RunStarted) -> Seq<char> {
    "started "@ + started.job_id@ + " ("@ + joined(task_names(started.tasks@), ", "@) + ")"@
}

/// The line that says that a run has started.
fn show_started(started: &RunStarted) -> (r: String)
    ensures
        r@ == started_row(*started),
{
    let mut names: Vec<String> = Vec::new();
    for i in 0..started.tasks.len()
        invariant
            texts(names@) == task_names(started.tasks@.take(i as int)),
    {
        let task = &started.tasks[i];
        let name = enclosed(task.node_id.as_str(), ":", task.task_id.as_str());
        proof {
            assert(task_names(started.tasks@.take(i + 1)) =~= task_names(
                started.tasks@.take(i as int),
            ).push(name@));
        }
        add_line(&mut names, name);
    }
    proof {
        assert(started.tasks@.take(started.tasks.len() as int) =~= started.tasks@);
    }
    let mut r = enclosed("started ", started.job_id.as_str(), " (");
    r.append(join(&names, ", ").as_str());
    r.append(")");
    r
}

/// An exit code as it is shown where it may be absent.
pub open spec fn optional_code(code: Option<i32>) -> Seq<char> {
    match code {
        Some(code) => "Some("@ + signed_text(code as int) + ")"@,
        None => "None"@,
    }
}

/// The line that says how a task has ended.
pub open spec fn exited_row(exited: TaskExited) -> Seq<char> {
    "["@ + exited.node_id@ + " "@ + exited.task_id@ + "] exited success="@ + bool_text(
        exited.success,
    ) + " code="@ + optional_code(exited.exit_code)
}

/// The line that says how a task has ended.
fn show_exited(exited: &TaskExited) -> (r: String)
    ensures
        r@ == exited_row(*exited),
{
    let mut r = enclosed("[", exited.node_id.as_str(), " ");
    r.append(exited.task_id.as_str());
    r.append("] exited success=");
    r.append(show_bool(exited.success).as_str());
    r.append(" code=");
    match exited.exit_code {
        Some(code) => {
            let shown = enclosed("Some(", signed(code).as_str(), ")");
            r.append(shown.as_str());
        },
        None => {
            r.append("None");
        },
    }
    r
}

/// What is asked, as far as it decides what is shown of the answers.
#[derive(Clone, Copy, Debug, PartialEq, Eq, Structural)]
pub enum Topic {
    Run,
    Jobs,
    Logs,
    Kill,
    Diagnosis,
    NewLease,
    Release,
}

/// How a client ends.
#[derive(Debug)]
pub enum End {
    /// Well.
    Done,
    /// With a failure that was shown already.
    Failed,
    /// With an error that the coordinator reports.
    Error(String),
}

/// What is shown of an answer.
pub open spec fn shown(topic: Topic, response: ClientResponse) -> Seq<Seq<char>> {
    match (topic, response) {
        (Topic::Run, ClientResponse::RunStarted(started)) => seq![started_row(started)],
        (Topic::Run, ClientResponse::TaskStarted(started)) => match started.pid {
            Some(pid) => seq![
                "["@ + started.node_id@ + " "@ + started.task_id@ + "] pid "@ + decimal_text(
                    pid as nat,
                ),
            ],
            None => Seq::empty(),
        },
        (Topic::Run, ClientResponse::LogLine(line)) => seq![log_row(line)],
        (Topic::Run, ClientResponse::TaskExited(exited)) => seq![exited_row(exited)],
        (Topic::Run, ClientResponse::JobFinished(done)) => seq![
            "finished "@ + done.job_id@ + " success="@ + bool_text(done.success),
        ],
        (Topic::Jobs, ClientResponse::Jobs(jobs)) => job_lines(jobs@),
        (Topic::Logs, ClientResponse::Logs(logs)) => log_rows(logs@),
        (Topic::Kill, ClientResponse::Ack) => seq!["kill requested"@],
        (Topic::Diagnosis, ClientResponse::JobDiagnosis(d)) => diagnosis_lines(d),
        (Topic::NewLease, ClientResponse::LeaseCreated(lease)) => lease_lines(seq![lease]),
        (Topic::Release, ClientResponse::Ack) => seq!["lease released"@],
        _ => Seq::empty(),
    }
}

/// How a client ends with an answer, if it does not go on: with the coordinator's error, or with
/// the failure of the job that it ran.
pub open spec fn end_of(topic: Topic, response: ClientResponse) -> End {
    match (topic, response) {
        (_, ClientResponse::Error(message)) => End::Error(message),
        (Topic::Run, ClientResponse::JobFinished(done)) => if done.success {
            End::Done
        } else {
            End::Failed
        },
        _ => End::Done,
    }
}

/// All that is shown of answers, and how the client ends: nothing is shown past an answer that
/// ends it.
pub open spec fn output(topic: Topic, responses: Seq<ClientResponse>) -> (Seq<Seq<char>>, End)
    decreases responses.len(),
{
    if responses.len() == 0 {
        (Seq::empty(), End::Done)
    } else {
        let (lines, end) = output(topic, responses.drop_last());
        if end is Done {
            (lines + shown(topic, responses.last()), end_of(topic, responses.last()))
        } else {
            (lines, end)
        }
    }
}

/// Lines to show, and how the client ends after them.
#[derive(Debug)]
pub struct Output {
    pub lines: Vec<String>,
    pub end: End,
}

/// What is shown of an answer.
pub fn show_response(topic: Topic, response: &ClientResponse) -> (r: Vec<String>)
    ensures
        texts(r@) == shown(topic, *response),
{
    let mut lines: Vec<String> = Vec::new();
    proof {
        assert(texts(lines@) =~= Seq::empty());
    }
    match topic {
        Topic::Run => match response {
            ClientResponse::RunStarted(started) => {
                add_line(&mut lines, show_started(started));
            },
            ClientResponse::TaskStarted(started) => match started.pid {
                Some(pid) => {
                    let mut line = enclosed("[", started.node_id.as_str(), " ");
                    line.append(started.task_id.as_str());
                    line.append("] pid ");
                    line.append(decimal(pid as u64).as_str());
                    add_line(&mut lines, line);
                },
                None => {},
            },
            ClientResponse::LogLine(line) => {
                add_line(&mut lines, print_log_line(line));
            },
            ClientResponse::TaskExited(exited) => {
                add_line(&mut lines, show_exited(exited));
            },
            ClientResponse::JobFinished(done) => {
                let mut line = enclosed("finished ", done.job_id.as_str(), " success=");
                line.append(show_bool(done.success).as_str());
                add_line(&mut lines, line);
            },
            _ => {},
        },
        Topic::Jobs => match response {
            ClientResponse::Jobs(jobs) => {
                return print_jobs(jobs);
            },
            _ => {},
        },
        Topic::Logs => match response {
            ClientResponse::Logs(logs) => {
                return print_logs(logs);
            },
            _ => {},
        },
        Topic::Kill => match response {
            ClientResponse::Ack => {
                add_line(&mut lines, "kill requested".to_owned());
            },
            _ => {},
        },
        Topic::Diagnosis => match response {
            ClientResponse::JobDiagnosis(d) => {
                return print_job_diagnosis(d);
            },
            _ => {},
        },
        Topic::NewLease => match response {
            ClientResponse::LeaseCreated(lease) => {
                add_line(
                    &mut lines,
                    "LEASE\tNODES\tGPUS_PER_NODE\tEXCLUSIVE\tCREATED".to_owned(),
                );
                add_line(&mut lines, show_lease(lease));
                proof {
                    assert(lease_rows(seq![*lease]) =~= seq![lease_row(*lease)]);
                }
            },
            _ => {},
        },
        Topic::Release => match response {
            ClientResponse::Ack => {
                add_line(&mut lines, "lease released".to_owned());
            },
            _ => {},
        },
    }
    proof {
        assert(texts(lines@) =~= shown(topic, *response));
    }
    lines
}

/// How a client ends with an answer, if it does not go on.
fn ending(topic: Topic, response: &ClientResponse) -> (r: End)
    ensures
        r == end_of(topic, *response),
{
    match response {
        ClientResponse::Error(message) => End::Error(message.clone()),
        ClientResponse::JobFinished(done) => if topic == Topic::Run && !done.success {
            End::Failed
        } else {
            End::Done
        },
        _ => End::Done,
    }
}

/// All that is shown of answers, and how the client ends.
pub fn print_responses(topic: Topic, responses: &Vec<ClientResponse>) -> (r: Output)
    ensures
        texts(r.lines@) == output(topic, responses@).0,
        r.end == output(topic, responses@).1,
{
    let mut lines: Vec<String> = Vec::new();
    proof {
        assert(texts(lines@) =~= Seq::empty());
    }
    for i in 0..responses.len()
        invariant
            texts(lines@) == output(topic, responses@.take(i as int)).0,
            output(topic, responses@.take(i as int)).1 is Done,
    {
        let ghost before = lines@;
        let mut more = show_response(topic, &responses[i]);
        let ghost added = more@;
        lines.append(&mut more);
        proof {
            assert(texts(lines@) =~= texts(before) + texts(added));
            assert(responses@.take(i + 1).drop_last() =~= responses@.take(i as int));
            assert(responses@.take(i + 1).last() == responses@[i as int]);
        }
        let end = ending(topic, &responses[i]);
        match end {
            End::Done => {},
            _ => {
                proof {
                    lemma_output_stays(topic, responses@, i + 1);
                }
                return Output { lines, end };
            },
        }
    }
    proof {
        assert(responses@.take(responses.len() as int) =~= responses@);
    }
    Output { lines, end: End::Done }
}

/// Answers past one that ends the client change nothing.
proof fn lemma_output_stays(topic: Topic, responses: Seq<ClientResponse>, n: int)
    requires
        0 <= n <= responses.len(),
        !(output(topic, responses.take(n)).1 is Done),
    ensures
        output(topic, responses) == output(topic, responses.take(n)),
    decreases responses.len(),
{
    if n == responses.len() {
        assert(responses.take(n) =~= responses);
    } else {
        assert(responses.drop_last().take(n) =~= responses.take(n));
        lemma_output_stays(topic, responses.drop_last(), n);
    }
}

/// A client that runs a job ends well exactly when no answer reports an error or a failed job.
pub proof fn law_run_ends_well_unless_told_otherwise(responses: Seq<ClientResponse>)
    ensures
        output(Topic::Run, responses).1 is Done <==> forall|i: int|
            0 <= i < responses.len() ==> !((#[trigger] responses[i]) is Error) && !(
            responses[i] matches ClientResponse::JobFinished(done) && !done.success),
    decreases responses.len(),
{
    if responses.len() > 0 {
        let before = responses.drop_last();
        law_run_ends_well_unless_told_otherwise(before);
        assert forall|i: int| 0 <= i < before.len() implies before[i] == #[trigger] responses[i] by {}
        if output(Topic::Run, responses).1 is Done {
            assert forall|i: int| 0 <= i < responses.len() implies !((#[trigger] responses[i])
                is Error) && !(responses[i] matches ClientResponse::JobFinished(done)
                && !done.success) by {
                if i < before.len() {
                    assert(before[i] == responses[i]);
                } else {
                    assert(responses[i] == responses.last());
                }
            }
        } else if output(Topic::Run, before).1 is Done {
            assert(responses[responses.len() - 1] == responses.last());
        } else {
            let i = choose|i: int|
                0 <= i < before.len() && !(!((#[trigger] before[i]) is Error) && !(
                before[i] matches ClientResponse::JobFinished(done) && !done.success));
            assert(responses[i] == before[i]);
        }
    }
}

/// Four cells stand in their order with one tab between each two.
proof fn lemma_four_cells(a: Seq<char>, b: Seq<char>, c: Seq<char>, d: Seq<char>)
    ensures
        row(seq![a, b, c, d]) == a + "\t"@ + b + "\t"@ + c + "\t"@ + d,
{
    reveal_with_fuel(joined, 5);
    assert(seq![a, b, c, d].drop_last() =~= seq![a, b, c]);
    assert(seq![a, b, c].drop_last() =~= seq![a, b]);
    assert(seq![a, b].drop_last() =~= seq![a]);
}

/// Five cells stand in their order with one tab between each two.
proof fn lemma_five_cells(a: Seq<char>, b: Seq<char>, c: Seq<char>, d: Seq<char>, e: Seq<char>)
    ensures
        row(seq![a, b, c, d, e]) == a + "\t"@ + b + "\t"@ + c + "\t"@ + d + "\t"@ + e,
{
    lemma_four_cells(a, b, c, d);
    assert(seq![a, b, c, d, e].drop_last() =~= seq![a, b, c, d]);
}

/// A table of nodes has a head and one line for each node, in their order: its identifier, host,
/// whether it is online, how many tasks it runs and when it was last heard of.
pub proof fn law_nodes_are_shown(nodes: Seq<NodeSummary>, i: int)
    ensures
        nodes.len() == 0 ==> node_lines(nodes) == seq!["no workers connected"@],
        nodes.len() > 0 ==> node_lines(nodes).len() == nodes.len() + 1 && node_lines(nodes)[0]
            == "NODE\tHOSTNAME\tONLINE\tTASKS\tLAST_SEEN"@,
        0 <= i < nodes.len() ==> node_lines(nodes)[i + 1] == nodes[i].node_id@ + "\t"@
            + nodes[i].hostname@ + "\t"@ + (if nodes[i].online {
            "true"@
        } else {
            "false"@
        }) + "\t"@ + decimal_text(nodes[i].running_tasks as nat) + "\t"@
            + nodes[i].last_seen.text(),
{
    if 0 <= i < nodes.len() {
        let n = nodes[i];
        lemma_five_cells(
            n.node_id@,
            n.hostname@,
            bool_text(n.online),
            decimal_text(n.running_tasks as nat),
            n.last_seen.text(),
        );
        assert(node_lines(nodes)[i + 1] == node_rows(nodes)[i]);
    }
}

/// A table of jobs has a head and one line for each job, in their order: its identifier, status,
/// number of tasks and when it was last updated.
pub proof fn law_jobs_are_shown(jobs: Seq<JobSummary>, i: int)
    ensures
        job_lines(jobs).len() == jobs.len() + 1,
        job_lines(jobs)[0] == "JOB\tSTATUS\tTASKS\tUPDATED"@,
        0 <= i < jobs.len() ==> job_lines(jobs)[i + 1] == jobs[i].job_id@ + "\t"@
            + jobs[i].status@ + "\t"@ + decimal_text(jobs[i].tasks@.len()) + "\t"@ + (
        if jobs[i].updated_at is Some {
            jobs[i].updated_at->0.text()
        } else {
            "-"@
        }),
{
    if 0 <= i < jobs.len() {
        let j = jobs[i];
        lemma_four_cells(
            j.job_id@,
            j.status@,
            decimal_text(j.tasks@.len()),
            time_text(j.updated_at),
        );
        assert(job_lines(jobs)[i + 1] == job_rows(jobs)[i]);
    }
}

/// The line of a task: its identifier, node, status and exit code.
pub open spec fn task_line(task: TaskSummary) -> Seq<char> {
    task.task_id@ + "\t"@ + task.node_id@ + "\t"@ + task.status@ + "\t"@ + (
    if task.exit_code is Some {
        signed_text(task.exit_code->0 as int)
    } else {
        "-"@
    })
}

/// The line of a task is made of what is known of it.
proof fn lemma_task_line(task: TaskSummary)
    ensures
        task_row(task) == task_line(task),
{
    lemma_four_cells(task.task_id@, task.node_id@, task.status@, exit_text(task.exit_code));
}

/// The state of a job is shown as the job's line and a line for each of its tasks, each under its
/// head.
pub proof fn law_job_status_is_shown(job: JobSummary, i: int)
    ensures
        status_lines(job).len() == job.tasks@.len() + 3,
        status_lines(job)[0] == "JOB\tSTATUS\tTASKS\tUPDATED"@,
        status_lines(job)[1] == job.job_id@ + "\t"@ + job.status@ + "\t"@ + decimal_text(
            job.tasks@.len(),
        ) + "\t"@ + (if job.updated_at is Some {
            job.updated_at->0.text()
        } else {
            "-"@
        }),
        status_lines(job)[2] == "TASK\tNODE\tSTATUS\tEXIT"@,
        0 <= i < job.tasks@.len() ==> status_lines(job)[i + 3] == task_line(job.tasks@[i]),
{
    law_jobs_are_shown(seq![job], 0);
    assert(job_lines(seq![job])[1] == job_rows(seq![job])[0]);
    if 0 <= i < job.tasks@.len() {
        lemma_task_line(job.tasks@[i]);
        assert(status_lines(job)[i + 3] == task_rows(job.tasks@)[i]);
    }
}

/// The line of a log line: its node, task and stream in brackets, and then its text.
pub open spec fn log_line_text(line: LogLine) -> Seq<char> {
    "["@ + line.node_id@ + " "@ + line.task_id@ + " "@ + (match line.stream {
        LogStream::Stdout => "stdout"@,
        LogStream::Stderr => "stderr"@,
        LogStream::System => "system"@,
    }) + "] "@ + line.line@
}

/// Log lines are shown one by one, in their order.
pub proof fn law_logs_are_shown(lines: Seq<LogLine>, i: int)
    ensures
        log_rows(lines).len() == lines.len(),
        0 <= i < lines.len() ==> log_rows(lines)[i] == log_line_text(lines[i]),
{
}

/// A table of leases has a head and one line for each lease, in their order: its identifier, its
/// nodes with commas between them, the graphics processors, whether it is exclusive and when it
/// was made.
pub proof fn law_leases_are_shown(leases: Seq<LeaseSummary>, i: int)
    ensures
        leases.len() == 0 ==> lease_lines(leases) == seq!["no active leases"@],
        leases.len() > 0 ==> lease_lines(leases).len() == leases.len() + 1 && lease_lines(leases)[0]
            == "LEASE\tNODES\tGPUS_PER_NODE\tEXCLUSIVE\tCREATED"@,
        0 <= i < leases.len() ==> lease_lines(leases)[i + 1] == leases[i].lease_id@ + "\t"@
            + joined(ids(leases[i].nodes@), ","@) + "\t"@ + (if leases[i].gpus_per_node is Some {
            decimal_text(leases[i].gpus_per_node->0 as nat)
        } else {
            "-"@
        }) + "\t"@ + (if leases[i].exclusive {
            "true"@
        } else {
            "false"@
        }) + "\t"@ + leases[i].created_at.text(),
{
    if 0 <= i < leases.len() {
        let l = leases[i];
        lemma_five_cells(
            l.lease_id@,
            joined(ids(l.nodes@), ","@),
            count_text(l.gpus_per_node),
            bool_text(l.exclusive),
            l.created_at.text(),
        );
        assert(lease_lines(leases)[i + 1] == lease_rows(leases)[i]);
    }
}

/// A diagnosis is shown as its summary, a line for each task, each hint after a dash, and the
/// recent errors if there are any, each part under its head.
pub proof fn law_diagnosis_is_shown(d: JobDiagnosis, i: int)
    ensures
        ({
            let lines = diagnosis_lines(d);
            let t = d.tasks@.len() as int;
            let h = d.hints@.len() as int;
            let e = d.recent_errors@.len() as int;
            &&& lines.len() == if e == 0 {
                t + h + 4
            } else {
                t + h + e + 5
            }
            &&& lines[0] == "JOB\tSTATUS\tSUMMARY"@
            &&& lines[1] == d.job_id@ + "\t"@ + d.status@ + "\t"@ + d.summary@
            &&& lines[2] == "TASK\tNODE\tSTATUS\tEXIT"@
            &&& 0 <= i < t ==> lines[i + 3] == task_line(d.tasks@[i])
            &&& lines[t + 3] == "HINTS"@
            &&& 0 <= i < h ==> lines[t + 4 + i] == "- "@ + d.hints@[i]@
            &&& e > 0 ==> lines[t + h + 4] == "RECENT_ERRORS"@
            &&& 0 <= i < e ==> lines[t + h + 5 + i] == log_line_text(d.recent_errors@[i])
        }),
{
    let lines = diagnosis_lines(d);
    let t = d.tasks@.len() as int;
    let h = d.hints@.len() as int;
    if 0 <= i < t {
        lemma_task_line(d.tasks@[i]);
        assert(lines[i + 3] == task_rows(d.tasks@)[i]);
    }
    if 0 <= i < h {
        assert(lines[t + 4 + i] == hint_rows(d.hints@)[i]);
    }
    if 0 <= i < d.recent_errors@.len() {
        assert(lines[t + h + 5 + i] == log_rows(d.recent_errors@)[i]);
    }
}

/// What a client that runs a job is shown: the tasks of the job, the number of each process,
/// output word for word, each end with its success and exit code, and the success of the job.
pub proof fn law_run_is_shown(response: ClientResponse)
    ensures
        match response {
            ClientResponse::RunStarted(started) => shown(Topic::Run, response) == seq![
                "started "@ + started.job_id@ + " ("@ + joined(
                    task_names(started.tasks@),
                    ", "@,
                ) + ")"@,
            ],
            ClientResponse::TaskStarted(started) => {
                &&& started.pid matches Some(pid) ==> shown(Topic::Run, response) == seq![
                    "["@ + started.node_id@ + " "@ + started.task_id@ + "] pid "@ + decimal_text(
                        pid as nat,
                    ),
                ]
                &&& started.pid is None ==> shown(Topic::Run, response).len() == 0
            },
            ClientResponse::LogLine(line) => shown(Topic::Run, response) == seq![
                log_line_text(line),
            ],
            ClientResponse::TaskExited(exited) => shown(Topic::Run, response).len() == 1 && shown(
                Topic::Run,
                response,
            )[0] == "["@ + exited.node_id@ + " "@ + exited.task_id@ + "] exited success="@ + (
            if exited.success {
                "true"@
            } else {
                "false"@
            }) + " code="@ + (match exited.exit_code {
                Some(code) => "Some("@ + signed_text(code as int) + ")"@,
                None => "None"@,
            }),
            ClientResponse::JobFinished(done) => shown(Topic::Run, response).len() == 1 && shown(
                Topic::Run,
                response,
            )[0] == "finished "@ + done.job_id@ + " success="@ + (if done.success {
                "true"@
            } else {
                "false"@
            }),
            _ => shown(Topic::Run, response).len() == 0,
        },
{
}

/// Each task of a started run is named with its node, in their order.
pub proof fn law_started_tasks_are_named(tasks: Seq<TaskAssignment>, i: int)
    ensures
        task_names(tasks).len() == tasks.len(),
        0 <= i < tasks.len() ==> task_names(tasks)[i] == tasks[i].node_id@ + ":"@
            + tasks[i].task_id@,
{
}

/// What is shown on other topics is what was asked for, and nothing else.
pub proof fn law_other_answers_are_shown(response: ClientResponse)
    ensures
        response matches ClientResponse::Jobs(jobs) ==> shown(Topic::Jobs, response) == job_lines(
            jobs@,
        ),
        response matches ClientResponse::Logs(logs) ==> shown(Topic::Logs, response) == log_rows(
            logs@,
        ),
        response is Ack ==> shown(Topic::Kill, response) == seq!["kill requested"@] && shown(
            Topic::Release,
            response,
        ) == seq!["lease released"@],
        response matches ClientResponse::JobDiagnosis(d) ==> shown(Topic::Diagnosis, response)
            == diagnosis_lines(d),
        response matches ClientResponse::LeaseCreated(lease) ==> shown(Topic::NewLease, response)
            == lease_lines(seq![lease]),
        !(response is Jobs) ==> shown(Topic::Jobs, response).len() == 0,
        !(response is Logs) ==> shown(Topic::Logs, response).len() == 0,
        !(response is Ack) ==> shown(Topic::Kill, response).len() == 0 && shown(
            Topic::Release,
            response,
        ).len() == 0,
        !(response is JobDiagnosis) ==> shown(Topic::Diagnosis, response).len() == 0,
        !(response is LeaseCreated) ==> shown(Topic::NewLease, response).len() == 0,
{
}

/// Answers are shown one after the other, up to one that ends the client: an error, with its
/// words, or a job that failed. Nothing is shown after that, and the end stays.
pub proof fn law_answers_are_shown_up_to_an_end(
    topic: Topic,
    responses: Seq<ClientResponse>,
    response: ClientResponse,
)
    ensures
        output(topic, Seq::empty()) == (Seq::<Seq<char>>::empty(), End::Done),
        !(output(topic, responses).1 is Done) ==> output(topic, responses.push(response))
            == output(topic, responses),
        output(topic, responses).1 is Done ==> {
            &&& output(topic, responses.push(response)).0 == output(topic, responses).0 + shown(
                topic,
                response,
            )
            &&& response matches ClientResponse::Error(message) ==> output(
                topic,
                responses.push(response),
            ).1 == End::Error(message)
            &&& topic == Topic::Run && (response matches ClientResponse::JobFinished(done)
                && !done.success) ==> output(topic, responses.push(response)).1 is Failed
            &&& !(response is Error) && !(topic == Topic::Run && (
            response matches ClientResponse::JobFinished(done) && !done.success)) ==> output(
                topic,
                responses.push(response),
            ).1 is Done
        },
{
    assert(responses.push(response).drop_last() =~= responses);
}

} // verus!
