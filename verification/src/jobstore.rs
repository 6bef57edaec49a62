//! The record of nodes, tasks and log lines, and what it says of jobs.
//!
//! A store holds rows as a database keeps them: points in time and streams are texts. The rules
//! by which events change rows, and by which rows become summaries, are here; reading rows from
//! a database and writing them back is up to the caller.
use vstd::prelude::*;

use crate::ids::{JobId, NodeId, TaskId};
use crate::protocol::{LogLine, LogStream, NodeInfo, TaskExited, TaskStarted};
use crate::table::Table;
use crate::text::{optional_text, same};
use crate::time::{four_digit_year, parse_datetime, parsed_text, Timestamp};

verus! {

/// What is kept of a node: its name, when it was last seen, and its description as JSON.
#[derive(Debug)]
pub struct NodeRow {
    pub node_name: String,
    pub last_seen: String,
    pub payload: String,
}

/// What a `NodeRow` says.
#[verifier::ext_equal]
pub struct NodeRowView {
    pub node_name: Seq<char>,
    pub last_seen: Seq<char>,
    pub payload: Seq<char>,
}

impl View for NodeRow {
    type V = NodeRowView;

    open spec fn view(&self) -> NodeRowView {
        NodeRowView {
            node_name: self.node_name@,
            last_seen: self.last_seen@,
            payload: self.payload@,
        }
    }
}

/// What is kept of a task.
#[derive(Debug)]
pub struct TaskRow {
    pub job_id: JobId,
    pub node_id: NodeId,
    pub status: String,
    pub created_at: Option<String>,
    pub started_at: Option<String>,
    pub exited_at: Option<String>,
    pub exit_code: Option<i32>,
}

/// What a `TaskRow` says.
#[verifier::ext_equal]
pub struct TaskRowView {
    pub job_id: Seq<char>,
    pub node_id: Seq<char>,
    pub status: Seq<char>,
    pub created_at: Option<Seq<char>>,
    pub started_at: Option<Seq<char>>,
    pub exited_at: Option<Seq<char>>,
    pub exit_code: Option<i32>,
}

impl View for TaskRow {
    type V = TaskRowView;

    open spec fn view(&self) -> TaskRowView {
        TaskRowView {
            job_id: self.job_id@,
            node_id: self.node_id@,
            status: self.status@,
            created_at: optional_text(self.created_at),
            started_at: optional_text(self.started_at),
            exited_at: optional_text(self.exited_at),
            exit_code: self.exit_code,
        }
    }
}

/// What is kept of a log line. The offset is kept as the signed number with the same bits.
#[derive(Debug)]
pub struct LogRow {
    pub job_id: JobId,
    pub task_id: TaskId,
    pub node_id: NodeId,
    pub stream: String,
    pub timestamp: String,
    pub line: String,
    pub offset: i64,
}

/// What a `LogRow` says.
#[verifier::ext_equal]
pub struct LogRowView {
    pub job_id: Seq<char>,
    pub task_id: Seq<char>,
    pub node_id: Seq<char>,
    pub stream: Seq<char>,
    pub timestamp: Seq<char>,
    pub line: Seq<char>,
    pub offset: i64,
}

impl View for LogRow {
    type V = LogRowView;

    open spec fn view(&self) -> LogRowView {
        LogRowView {
            job_id: self.job_id@,
            task_id: self.task_id@,
            node_id: self.node_id@,
            stream: self.stream@,
            timestamp: self.timestamp@,
            line: self.line@,
            offset: self.offset,
        }
    }
}

/// The rows of nodes, of tasks and of log lines; log lines are in the order they came in.
#[derive(Debug)]
pub struct SqliteJobStore {
    pub nodes: Table<NodeRow>,
    pub tasks: Table<TaskRow>,
    pub logs: Vec<LogRow>,
}

/// What a store says.
#[verifier::ext_equal]
pub struct StoreView {
    pub nodes: Map<Seq<char>, NodeRowView>,
    pub tasks: Map<Seq<char>, TaskRowView>,
    pub logs: Seq<LogRowView>,
}

/// What each row of a table of nodes says.
pub open spec fn node_views(nodes: Map<Seq<char>, NodeRow>) -> Map<Seq<char>, NodeRowView> {
    nodes.map_values(|row: NodeRow| row@)
}

/// What each row of a table of tasks says.
pub open spec fn task_views(tasks: Map<Seq<char>, TaskRow>) -> Map<Seq<char>, TaskRowView> {
    tasks.map_values(|row: TaskRow| row@)
}

/// What each row of log lines says.
pub open spec fn log_views(logs: Seq<LogRow>) -> Seq<LogRowView> {
    logs.map_values(|row: LogRow| row@)
}

impl View for SqliteJobStore {
    type V = StoreView;

    open spec fn view(&self) -> StoreView {
        StoreView {
            nodes: node_views(self.nodes@),
            tasks: task_views(self.tasks@),
            logs: log_views(self.logs@),
        }
    }
}

/// The text that is there, or else the other one.
pub open spec fn text_or(text: Option<Seq<char>>, other: Seq<char>) -> Option<Seq<char>> {
    match text {
        Some(t) => Some(t),
        None => Some(other),
    }
}

/// The status of a task that has ended.
pub open spec fn ended_status(success: bool) -> Seq<char> {
    if success {
        "succeeded"@
    } else {
        "failed"@
    }
}

impl TaskRowView {
    /// The row of a task that was dispatched at `at`, where `row` is what was kept of it.
    pub open spec fn after_dispatch(
        row: Option<TaskRowView>,
        job_id: Seq<char>,
        node_id: Seq<char>,
        at: Seq<char>,
    ) -> TaskRowView {
        match row {
            Some(r) => TaskRowView {
                job_id,
                node_id,
                status: "queued"@,
                created_at: text_or(r.created_at, at),
                ..r
            },
            None => TaskRowView {
                job_id,
                node_id,
                status: "queued"@,
                created_at: Some(at),
                started_at: None,
                exited_at: None,
                exit_code: None,
            },
        }
    }

    /// The row of a task that started at `at`, where `row` is what was kept of it.
    pub open spec fn after_start(
        row: Option<TaskRowView>,
        job_id: Seq<char>,
        node_id: Seq<char>,
        at: Seq<char>,
    ) -> TaskRowView {
        match row {
            Some(r) => TaskRowView {
                status: "running"@,
                created_at: text_or(r.created_at, at),
                started_at: Some(at),
                ..r
            },
            None => TaskRowView {
                job_id,
                node_id,
                status: "running"@,
                created_at: Some(at),
                started_at: Some(at),
                exited_at: None,
                exit_code: None,
            },
        }
    }

    /// The row of a task that ended at `at`, where `row` is what was kept of it.
    pub open spec fn after_exit(
        row: Option<TaskRowView>,
        job_id: Seq<char>,
        node_id: Seq<char>,
        success: bool,
        exit_code: Option<i32>,
        at: Seq<char>,
    ) -> TaskRowView {
        match row {
            Some(r) => TaskRowView {
                status: ended_status(success),
                exited_at: Some(at),
                exit_code,
                ..r
            },
            None => TaskRowView {
                job_id,
                node_id,
                status: ended_status(success),
                created_at: Some(at),
                started_at: None,
                exited_at: Some(at),
                exit_code,
            },
        }
    }
}

/// The row in which a log line is kept.
pub open spec fn log_row(line: LogLine) -> LogRowView {
    LogRowView {
        job_id: line.job_id@,
        task_id: line.task_id@,
        node_id: line.node_id@,
        stream: line.stream.name(),
        timestamp: line.timestamp.text(),
        line: line.line@,
        offset: line.offset as i64,
    }
}

impl StoreView {
    /// What is kept of a task, if anything.
    pub open spec fn task(self, task_id: Seq<char>) -> Option<TaskRowView> {
        if self.tasks.contains_key(task_id) {
            Some(self.tasks[task_id])
        } else {
            None
        }
    }

    /// The store with a node's row replaced.
    pub open spec fn with_node(self, node: NodeInfo, payload: Seq<char>) -> StoreView {
        StoreView {
            nodes: self.nodes.insert(
                node.node_id@,
                NodeRowView {
                    node_name: node.node_name@,
                    last_seen: node.started_at.text(),
                    payload,
                },
            ),
            ..self
        }
    }

    /// The store with a task's row replaced.
    pub open spec fn with_task(self, task_id: Seq<char>, row: TaskRowView) -> StoreView {
        StoreView { tasks: self.tasks.insert(task_id, row), ..self }
    }

    /// The store after a task was dispatched.
    pub open spec fn dispatched(
        self,
        job_id: Seq<char>,
        task_id: Seq<char>,
        node_id: Seq<char>,
        at: Timestamp,
    ) -> StoreView {
        self.with_task(
            task_id,
            TaskRowView::after_dispatch(self.task(task_id), job_id, node_id, at.text()),
        )
    }

    /// The store after a task started.
    pub open spec fn started(self, event: TaskStarted) -> StoreView {
        self.with_task(
            event.task_id@,
            TaskRowView::after_start(
                self.task(event.task_id@),
                event.job_id@,
                event.node_id@,
                event.timestamp.text(),
            ),
        )
    }

    /// The store after a task ended.
    pub open spec fn exited(self, event: TaskExited) -> StoreView {
        self.with_task(
            event.task_id@,
            TaskRowView::after_exit(
                self.task(event.task_id@),
                event.job_id@,
                event.node_id@,
                event.success,
                event.exit_code,
                event.timestamp.text(),
            ),
        )
    }

    /// The store after a log line came in.
    pub open spec fn logged(self, line: LogLine) -> StoreView {
        StoreView { logs: self.logs.push(log_row(line)), ..self }
    }
}

/// The text that is there, or else a copy of the other one.
fn copy_or(text: &Option<String>, other: &String) -> (r: Option<String>)
    ensures
        optional_text(r) == text_or(optional_text(*text), other@),
{
    match text {
        Some(t) => Some(t.clone()),
        None => Some(other.clone()),
    }
}

impl SqliteJobStore {
    /// A store without rows.
    pub fn in_memory() -> (r: Self)
        ensures
            r@ == (StoreView { nodes: Map::empty(), tasks: Map::empty(), logs: Seq::empty() }),
    {
        let r = SqliteJobStore { nodes: Table::new(), tasks: Table::new(), logs: Vec::new() };
        proof {
            assert(r@.nodes =~= Map::empty());
            assert(r@.tasks =~= Map::empty());
            assert(r@.logs =~= Seq::empty());
        }
        r
    }

    /// Replaces the row of a task.
    fn put_task(&mut self, task_id: &TaskId, row: TaskRow)
        ensures
            final(self)@ == old(self)@.with_task(task_id@, row@),
    {
        let ghost before = self.tasks@;
        self.tasks.insert(task_id.to_string(), row);
        proof {
            assert(task_views(self.tasks@) =~= task_views(before).insert(task_id@, row@));
        }
    }

    /// Keeps what a node says of itself, with its description as JSON text.
    pub fn upsert_node(&mut self, node: &NodeInfo, payload: String)
        ensures
            final(self)@ == old(self)@.with_node(*node, payload@),
    {
        let ghost before = self.nodes@;
        let row = NodeRow {
            node_name: node.node_name.clone(),
            last_seen: node.started_at.to_rfc3339(),
            payload,
        };
        let ghost said = row@;
        self.nodes.insert(node.node_id.to_string(), row);
        proof {
            assert(node_views(self.nodes@) =~= node_views(before).insert(node.node_id@, said));
        }
    }

    /// Keeps that a task was dispatched.
    pub fn record_task_dispatched(
        &mut self,
        job_id: &JobId,
        task_id: &TaskId,
        node_id: &NodeId,
        timestamp: Timestamp,
    )
        ensures
            final(self)@ == old(self)@.dispatched(job_id@, task_id@, node_id@, timestamp),
            four_digit_year(timestamp.seconds()) && old(self)@.task(task_id@) is None ==> time_of(
                final(self)@.tasks[task_id@].created_at,
            ) == Some(timestamp),
    {
        let at = timestamp.to_rfc3339();
        let row = match self.tasks.get(task_id.as_str()) {
            Some(row) => TaskRow {
                job_id: job_id.clone(),
                node_id: node_id.clone(),
                status: "queued".to_owned(),
                created_at: copy_or(&row.created_at, &at),
                started_at: row.started_at.clone(),
                exited_at: row.exited_at.clone(),
                exit_code: row.exit_code,
            },
            None => TaskRow {
                job_id: job_id.clone(),
                node_id: node_id.clone(),
                status: "queued".to_owned(),
                created_at: Some(at),
                started_at: None,
                exited_at: None,
                exit_code: None,
            },
        };
        self.put_task(task_id, row);
    }

    /// Keeps that a task started.
    pub fn record_task_started(&mut self, event: &TaskStarted)
        ensures
            final(self)@ == old(self)@.started(*event),
            four_digit_year(event.timestamp.seconds()) ==> time_of(
                final(self)@.tasks[event.task_id@].started_at,
            ) == Some(event.timestamp),
    {
        let at = event.timestamp.to_rfc3339();
        let row = match self.tasks.get(event.task_id.as_str()) {
            Some(row) => TaskRow {
                job_id: row.job_id.clone(),
                node_id: row.node_id.clone(),
                status: "running".to_owned(),
                created_at: copy_or(&row.created_at, &at),
                started_at: Some(at),
                exited_at: row.exited_at.clone(),
                exit_code: row.exit_code,
            },
            None => TaskRow {
                job_id: event.job_id.clone(),
                node_id: event.node_id.clone(),
                status: "running".to_owned(),
                created_at: Some(at.clone()),
                started_at: Some(at),
                exited_at: None,
                exit_code: None,
            },
        };
        self.put_task(&event.task_id, row);
    }

    /// Keeps a log line.
    pub fn record_log_line(&mut self, line: &LogLine)
        ensures
            final(self)@ == old(self)@.logged(*line),
            four_digit_year(line.timestamp.seconds()) ==> {
                &&& parsed_text(final(self)@.logs.last().timestamp) == Some(line.timestamp)
                &&& final(self)@.logs.last().read_as(*line)
            },
    {
        let ghost before = self.logs@;
        proof {
            law_stream_name_reads_back(line.stream);
            let offset = line.offset;
            assert(offset as i64 as u64 == offset) by (bit_vector);
        }
        let row = LogRow {
            job_id: line.job_id.clone(),
            task_id: line.task_id.clone(),
            node_id: line.node_id.clone(),
            stream: line.stream.to_string(),
            timestamp: line.timestamp.to_rfc3339(),
            line: line.line.clone(),
            offset: line.offset as i64,
        };
        let ghost said = row@;
        self.logs.push(row);
        proof {
            assert(log_views(self.logs@) =~= log_views(before).push(said));
        }
    }

    /// Keeps that a task ended.
    pub fn record_task_exited(&mut self, event: &TaskExited)
        ensures
            final(self)@ == old(self)@.exited(*event),
            four_digit_year(event.timestamp.seconds()) ==> time_of(
                final(self)@.tasks[event.task_id@].exited_at,
            ) == Some(event.timestamp),
    {
        let status = if event.success {
            "succeeded".to_owned()
        } else {
            "failed".to_owned()
        };
        let at = event.timestamp.to_rfc3339();
        let row = match self.tasks.get(event.task_id.as_str()) {
            Some(row) => TaskRow {
                job_id: row.job_id.clone(),
                node_id: row.node_id.clone(),
                status,
                created_at: row.created_at.clone(),
                started_at: row.started_at.clone(),
                exited_at: Some(at),
                exit_code: event.exit_code,
            },
            None => TaskRow {
                job_id: event.job_id.clone(),
                node_id: event.node_id.clone(),
                status,
                created_at: Some(at.clone()),
                started_at: None,
                exited_at: Some(at),
                exit_code: event.exit_code,
            },
        };
        self.put_task(&event.task_id, row);
    }
}

/// The point in time that a kept text names.
pub open spec fn time_of(text: Option<Seq<char>>) -> Option<Timestamp> {
    match text {
        Some(t) => parsed_text(t),
        None => None,
    }
}

/// The stream with a name; a name of none is the system's.
pub open spec fn named_stream(name: Seq<char>) -> LogStream {
    if name == "stdout"@ {
        LogStream::Stdout
    } else if name == "stderr"@ {
        LogStream::Stderr
    } else {
        LogStream::System
    }
}

/// The stream with a name; a name of none is the system's.
pub fn parse_stream(value: &str) -> (r: LogStream)
    ensures
        r == named_stream(value@),
{
    if same(value, "stdout") {
        LogStream::Stdout
    } else if same(value, "stderr") {
        LogStream::Stderr
    } else {
        LogStream::System
    }
}

/// The rows of a job's log lines, in the order they came in.
pub open spec fn job_logs(logs: Seq<LogRowView>, job_id: Seq<char>) -> Seq<LogRowView> {
    logs.filter(|row: LogRowView| row.job_id == job_id)
}

/// The last `n` rows.
pub open spec fn tail(rows: Seq<LogRowView>, n: nat) -> Seq<LogRowView> {
    if rows.len() <= n {
        rows
    } else {
        rows.skip(rows.len() - n)
    }
}

impl LogRowView {
    /// Whether a log line says what the row says. Where the row names no point in time, the
    /// line's is left open.
    pub open spec fn read_as(self, line: LogLine) -> bool {
        &&& line.job_id@ == self.job_id
        &&& line.task_id@ == self.task_id
        &&& line.node_id@ == self.node_id
        &&& line.stream == named_stream(self.stream)
        &&& line.line@ == self.line
        &&& line.offset == self.offset as u64
        &&& parsed_text(self.timestamp) matches Some(t) ==> line.timestamp == t
    }
}

impl LogRow {
    /// The log line of this row. Where the row names no point in time, the line has `now`.
    fn to_line(&self, now: Timestamp) -> (r: LogLine)
        ensures
            self@.read_as(r),
            parsed_text(self@.timestamp) is None ==> r.timestamp == now,
    {
        let timestamp = match parse_datetime(self.timestamp.as_str()) {
            Ok(t) => t,
            Err(_) => now,
        };
        LogLine {
            job_id: self.job_id.clone(),
            task_id: self.task_id.clone(),
            node_id: self.node_id.clone(),
            stream: parse_stream(self.stream.as_str()),
            timestamp,
            line: self.line.clone(),
            offset: self.offset as u64,
        }
    }
}

impl StoreView {
    /// Whether a list holds the last `lines` log lines of a job, in the order they came in.
    pub open spec fn lists_logs(self, job_id: Seq<char>, lines: nat, list: Seq<LogLine>) -> bool {
        let rows = tail(job_logs(self.logs, job_id), lines);
        &&& list.len() == rows.len()
        &&& forall|i: int| 0 <= i < list.len() ==> rows[i].read_as(#[trigger] list[i])
    }
}

impl SqliteJobStore {
    /// The last `lines` log lines of a job, in the order they came in. A line whose row names no
    /// point in time has `now`.
    pub fn tail_logs_at(&self, job_id: &JobId, lines: usize, now: Timestamp) -> (r: Vec<LogLine>)
        ensures
            self@.lists_logs(job_id@, lines as nat, r@),
            forall|i: int|
                0 <= i < r@.len() && parsed_text(
                    tail(job_logs(self@.logs, job_id@), lines as nat)[i].timestamp,
                ) is None ==> (#[trigger] r@[i]).timestamp == now,
    {
        let mut found: Vec<usize> = Vec::new();
        let ghost rows = self@.logs;
        let ghost wanted = |row: LogRowView| row.job_id == job_id@;
        proof {
            assert(rows.take(0) =~= Seq::empty());
            reveal(Seq::filter);
        }
        for i in 0..self.logs.len()
            invariant
                rows == log_views(self.logs@),
                wanted == (|row: LogRowView| row.job_id == job_id@),
                found.len() == rows.take(i as int).filter(wanted).len(),
                forall|q: int|
                    0 <= q < found.len() ==> (#[trigger] found@[q]) < self.logs.len()
                        && rows[found@[q] as int] == rows.take(i as int).filter(wanted)[q],
        {
            proof {
                reveal(Seq::filter);
                assert(rows.take(i + 1).drop_last() =~= rows.take(i as int));
                assert(rows.take(i + 1).last() == rows[i as int]);
            }
            if self.logs[i].job_id.is(job_id) {
                found.push(i);
            }
        }
        proof {
            assert(rows.take(self.logs.len() as int) =~= rows);
        }
        let start = if found.len() <= lines {
            0
        } else {
            found.len() - lines
        };
        let mut r: Vec<LogLine> = Vec::new();
        for p in start..found.len()
            invariant
                start <= found.len(),
                rows == log_views(self.logs@),
                r.len() == p - start,
                forall|q: int|
                    0 <= q < found.len() ==> (#[trigger] found@[q]) < self.logs.len(),
                forall|i: int|
                    0 <= i < r@.len() ==> {
                        let row = rows[found@[start + i] as int];
                        &&& row.read_as(#[trigger] r@[i])
                        &&& parsed_text(row.timestamp) is None ==> r@[i].timestamp == now
                    },
        {
            let line = self.logs[found[p]].to_line(now);
            r.push(line);
        }
        r
    }

    /// The last `lines` log lines of a job, in the order they came in.
    pub fn tail_logs(&self, job_id: &JobId, lines: usize) -> (r: Vec<LogLine>)
        ensures
            self@.lists_logs(job_id@, lines as nat, r@),
    {
        self.tail_logs_at(job_id, lines, Timestamp::now())
    }
}

/// Reading a stream's name gives the stream back.
pub proof fn law_stream_name_reads_back(stream: LogStream)
    ensures
        named_stream(stream.name()) == stream,
{
    reveal_strlit("stdout");
    reveal_strlit("stderr");
    reveal_strlit("system");
    assert("stdout"@[3] == 'o' && "stderr"@[3] == 'e' && "system"@[1] == 'y');
}

/// A log line that was kept is read back as it was, where the text of its time reads back: it is
/// the last of its job, and no other job's lines and no tasks change.
pub proof fn law_logged_line_reads_back(store: StoreView, line: LogLine, other: Seq<char>, n: nat)
    requires
        n > 0,
        parsed_text(line.timestamp.text()) == Some(line.timestamp),
    ensures
        tail(job_logs(store.logged(line).logs, line.job_id@), n).len() > 0,
        tail(job_logs(store.logged(line).logs, line.job_id@), n).last().read_as(line),
        other != line.job_id@ ==> job_logs(store.logged(line).logs, other) == job_logs(
            store.logs,
            other,
        ),
        store.logged(line).tasks == store.tasks,
{
    reveal(Seq::filter);
    let after = store.logs.push(log_row(line));
    assert(after.drop_last() =~= store.logs);
    assert(after.last() == log_row(line));
    law_stream_name_reads_back(line.stream);
    let offset = line.offset;
    assert(offset as i64 as u64 == offset) by (bit_vector);
}

/// A dispatched task is kept as a queued one of its job, and no other task changes.
pub proof fn law_dispatched_task_is_queued(
    store: StoreView,
    job_id: Seq<char>,
    task_id: Seq<char>,
    node_id: Seq<char>,
    at: Timestamp,
    other: Seq<char>,
)
    ensures
        store.dispatched(job_id, task_id, node_id, at).has_task(job_id, task_id),
        store.dispatched(job_id, task_id, node_id, at).tasks[task_id].status == "queued"@,
        other != task_id ==> store.dispatched(job_id, task_id, node_id, at).task(other)
            == store.task(other),
{
}

/// The time at which a task came up is kept from the first event on, whatever comes after.
pub proof fn law_creation_time_stays(
    store: StoreView,
    job_id: Seq<char>,
    node_id: Seq<char>,
    at: Timestamp,
    started: TaskStarted,
    exited: TaskExited,
    task_id: Seq<char>,
)
    requires
        store.tasks.contains_key(task_id),
        store.tasks[task_id].created_at is Some,
    ensures
        store.dispatched(job_id, task_id, node_id, at).tasks[task_id].created_at
            == store.tasks[task_id].created_at,
        store.started(started).tasks[task_id].created_at == store.tasks[task_id].created_at,
        store.exited(exited).tasks[task_id].created_at == store.tasks[task_id].created_at,
{
}

/// A task that was dispatched, started and ended keeps all three times, its node and its exit
/// code, and its status says how it ended.
pub proof fn law_task_life(
    store: StoreView,
    job_id: Seq<char>,
    task_id: Seq<char>,
    node_id: Seq<char>,
    at: Timestamp,
    started: TaskStarted,
    exited: TaskExited,
)
    requires
        store.task(task_id) is None,
        started.task_id@ == task_id,
        exited.task_id@ == task_id,
    ensures
        store.dispatched(job_id, task_id, node_id, at).started(started).exited(exited)
            == store.with_task(
            task_id,
            TaskRowView {
                job_id,
                node_id,
                status: ended_status(exited.success),
                created_at: Some(at.text()),
                started_at: Some(started.timestamp.text()),
                exited_at: Some(exited.timestamp.text()),
                exit_code: exited.exit_code,
            },
        ),
{
    let dispatched = store.dispatched(job_id, task_id, node_id, at);
    let after = dispatched.started(started).exited(exited);
    let row = TaskRowView {
        job_id,
        node_id,
        status: ended_status(exited.success),
        created_at: Some(at.text()),
        started_at: Some(started.timestamp.text()),
        exited_at: Some(exited.timestamp.text()),
        exit_code: exited.exit_code,
    };
    assert(dispatched.tasks[task_id].started_at is None);
    assert(dispatched.started(started).tasks[task_id].created_at == Some(at.text()));
    assert(after.tasks[task_id] == row);
    assert(after.tasks =~= store.with_task(task_id, row).tasks);
}

/// After the end of a task is kept, its row says `succeeded` if the end was a success and
/// `failed` if not, with the exit code and the time of the end. What was kept of the task's job,
/// node, creation and start stays; a task that was not known is kept under its job and node.
/// No other row changes.
pub proof fn law_end_is_kept(store: StoreView, event: TaskExited, other: Seq<char>)
    ensures
        ({
            let after = store.exited(event);
            let id = event.task_id@;
            let row = after.tasks[id];
            &&& after.tasks.contains_key(id)
            &&& event.success ==> row.status == "succeeded"@
            &&& !event.success ==> row.status == "failed"@
            &&& row.exit_code == event.exit_code
            &&& row.exited_at == Some(event.timestamp.text())
            &&& store.tasks.contains_key(id) ==> {
                &&& row.job_id == store.tasks[id].job_id
                &&& row.node_id == store.tasks[id].node_id
                &&& row.created_at == store.tasks[id].created_at
                &&& row.started_at == store.tasks[id].started_at
            }
            &&& !store.tasks.contains_key(id) ==> {
                &&& row.job_id == event.job_id@
                &&& row.node_id == event.node_id@
                &&& row.created_at == Some(event.timestamp.text())
                &&& row.started_at is None
            }
            &&& other != id ==> after.tasks.contains_key(other) == store.tasks.contains_key(other)
                && after.tasks[other] == store.tasks[other]
            &&& after.logs == store.logs
            &&& after.nodes == store.nodes
        }),
{
}

/// After the start of a task is kept, its row says `running` with the time of the start. What was
/// kept of the task's job, node and creation stays; a task that was not known is kept under its
/// job and node as created when it started. No other row changes.
pub proof fn law_start_is_kept(store: StoreView, event: TaskStarted, other: Seq<char>)
    ensures
        ({
            let after = store.started(event);
            let id = event.task_id@;
            let row = after.tasks[id];
            let at = Some(event.timestamp.text());
            &&& after.tasks.contains_key(id)
            &&& row.status == "running"@
            &&& row.started_at == at
            &&& store.tasks.contains_key(id) ==> {
                &&& row.job_id == store.tasks[id].job_id
                &&& row.node_id == store.tasks[id].node_id
                &&& store.tasks[id].created_at is Some ==> row.created_at
                    == store.tasks[id].created_at
                &&& store.tasks[id].created_at is None ==> row.created_at == at
                &&& row.exited_at == store.tasks[id].exited_at
                &&& row.exit_code == store.tasks[id].exit_code
            }
            &&& !store.tasks.contains_key(id) ==> {
                &&& row.job_id == event.job_id@
                &&& row.node_id == event.node_id@
                &&& row.created_at == at
                &&& row.exited_at is None
                &&& row.exit_code is None
            }
            &&& other != id ==> after.tasks.contains_key(other) == store.tasks.contains_key(other)
                && after.tasks[other] == store.tasks[other]
            &&& after.logs == store.logs
            &&& after.nodes == store.nodes
        }),
{
}

/// After a task is given out, its row says `queued` under its job and node. It keeps the time at
/// which it was first created. No other row changes.
pub proof fn law_dispatch_is_kept(
    store: StoreView,
    job_id: Seq<char>,
    task_id: Seq<char>,
    node_id: Seq<char>,
    at: Timestamp,
    other: Seq<char>,
)
    ensures
        ({
            let after = store.dispatched(job_id, task_id, node_id, at);
            let row = after.tasks[task_id];
            &&& after.tasks.contains_key(task_id)
            &&& row.job_id == job_id
            &&& row.node_id == node_id
            &&& row.status == "queued"@
            &&& store.tasks.contains_key(task_id) ==> {
                &&& store.tasks[task_id].created_at is Some ==> row.created_at
                    == store.tasks[task_id].created_at
                &&& store.tasks[task_id].created_at is None ==> row.created_at == Some(at.text())
                &&& row.started_at == store.tasks[task_id].started_at
                &&& row.exited_at == store.tasks[task_id].exited_at
                &&& row.exit_code == store.tasks[task_id].exit_code
            }
            &&& !store.tasks.contains_key(task_id) ==> {
                &&& row.created_at == Some(at.text())
                &&& row.started_at is None
                &&& row.exited_at is None
                &&& row.exit_code is None
            }
            &&& other != task_id ==> after.tasks.contains_key(other)
                == store.tasks.contains_key(other) && after.tasks[other] == store.tasks[other]
            &&& after.logs == store.logs
            &&& after.nodes == store.nodes
        }),
{
}

/// The row of a node has its name, the time at which it started and what it said of itself, and
/// takes the place of an earlier one. No other row changes.
pub proof fn law_node_is_kept(
    store: StoreView,
    node: NodeInfo,
    payload: Seq<char>,
    other: Seq<char>,
)
    ensures
        ({
            let after = store.with_node(node, payload);
            &&& after.nodes.contains_key(node.node_id@)
            &&& after.nodes[node.node_id@].node_name == node.node_name@
            &&& after.nodes[node.node_id@].last_seen == node.started_at.text()
            &&& after.nodes[node.node_id@].payload == payload
            &&& other != node.node_id@ ==> after.nodes.contains_key(other)
                == store.nodes.contains_key(other) && after.nodes[other] == store.nodes[other]
            &&& after.tasks == store.tasks
            &&& after.logs == store.logs
        }),
{
}

/// What is kept of a log line is what the line says, under the name of its stream.
pub proof fn law_log_row_says_what_the_line_says(store: StoreView, line: LogLine)
    ensures
        ({
            let after = store.logged(line);
            let row = after.logs.last();
            &&& after.logs == store.logs.push(row)
            &&& row.job_id == line.job_id@
            &&& row.task_id == line.task_id@
            &&& row.node_id == line.node_id@
            &&& line.stream == LogStream::Stdout ==> row.stream == "stdout"@
            &&& line.stream == LogStream::Stderr ==> row.stream == "stderr"@
            &&& line.stream == LogStream::System ==> row.stream == "system"@
            &&& row.timestamp == line.timestamp.text()
            &&& row.line == line.line@
            &&& row.offset as u64 == line.offset
            &&& after.tasks == store.tasks
            &&& after.nodes == store.nodes
        }),
{
    let offset = line.offset;
    assert(offset as i64 as u64 == offset) by (bit_vector);
}

/// The last lines of a job go with what is kept: a kept line comes last among those of its job,
/// in front of which one line fewer of the earlier ones stands; those of other jobs stay. Without
/// lines there are none, and there are never more than are asked for.
pub proof fn law_tail_follows_what_is_kept(
    store: StoreView,
    line: LogLine,
    job_id: Seq<char>,
    n: nat,
    before: Seq<LogLine>,
    after: Seq<LogLine>,
)
    requires
        store.lists_logs(job_id, n, before),
        store.logged(line).lists_logs(
            job_id,
            if line.job_id@ == job_id {
                n + 1
            } else {
                n
            },
            after,
        ),
    ensures
        before.len() <= n,
        store.logs.len() == 0 ==> before.len() == 0,
        line.job_id@ == job_id ==> after.len() == before.len() + 1,
        line.job_id@ != job_id ==> after.len() == before.len(),
        forall|i: int|
            0 <= i < before.len() ==> {
                &&& (#[trigger] after[i]).task_id@ == before[i].task_id@
                &&& after[i].job_id@ == job_id && before[i].job_id@ == job_id
                &&& after[i].node_id@ == before[i].node_id@
                &&& after[i].stream == before[i].stream
                &&& after[i].line@ == before[i].line@
                &&& after[i].offset == before[i].offset
            },
        line.job_id@ == job_id ==> {
            &&& after.last().job_id@ == job_id
            &&& after.last().task_id@ == line.task_id@
            &&& after.last().node_id@ == line.node_id@
            &&& after.last().stream == line.stream
            &&& after.last().line@ == line.line@
            &&& after.last().offset == line.offset
            &&& parsed_text(line.timestamp.text()) == Some(line.timestamp)
                ==> after.last().timestamp == line.timestamp
        },
{
    reveal(Seq::filter);
    law_stream_name_reads_back(line.stream);
    let offset = line.offset;
    assert(offset as i64 as u64 == offset) by (bit_vector);
    let row = log_row(line);
    let rows = store.logs.push(row);
    assert(rows.drop_last() =~= store.logs);
    let old_rows = job_logs(store.logs, job_id);
    let new_rows = job_logs(rows, job_id);
    lemma_rows_of_job(store.logs, job_id);
    lemma_rows_of_job(rows, job_id);
    let first = tail(old_rows, n);
    if line.job_id@ == job_id {
        assert(new_rows == old_rows.push(row));
        let second = tail(new_rows, n + 1);
        assert(second =~= first.push(row));
        assert(second.last() == row);
        assert(second.last().read_as(after.last())) by {
            assert(second[after.len() - 1].read_as(after[after.len() - 1]));
        }
        assert forall|i: int| 0 <= i < before.len() implies first[i].read_as(before[i])
            && first[i].read_as(#[trigger] after[i]) && first[i].job_id == job_id by {
            assert(second[i] == first[i]);
            lemma_tail_row(old_rows, n, i);
        }
    } else {
        assert(new_rows == old_rows);
        assert forall|i: int| 0 <= i < before.len() implies first[i].read_as(before[i])
            && first[i].read_as(#[trigger] after[i]) && first[i].job_id == job_id by {
            lemma_tail_row(old_rows, n, i);
        }
    }
}

/// The rows of a job are of that job.
proof fn lemma_rows_of_job(logs: Seq<LogRowView>, job_id: Seq<char>)
    ensures
        forall|i: int|
            0 <= i < job_logs(logs, job_id).len() ==> (#[trigger] job_logs(logs, job_id)[i]).job_id
                == job_id,
        logs.len() == 0 ==> job_logs(logs, job_id).len() == 0,
    decreases logs.len(),
{
    reveal(Seq::filter);
    if logs.len() > 0 {
        lemma_rows_of_job(logs.drop_last(), job_id);
    }
}

/// A row at the end is one of the rows.
proof fn lemma_tail_row(rows: Seq<LogRowView>, n: nat, i: int)
    requires
        0 <= i < tail(rows, n).len(),
    ensures
        exists|k: int| 0 <= k < rows.len() && tail(rows, n)[i] == #[trigger] rows[k],
{
    if rows.len() <= n {
        assert(tail(rows, n)[i] == rows[i]);
    } else {
        assert(tail(rows, n)[i] == rows[rows.len() - n + i]);
    }
}

/// What is said of a store is what is in its rows.
pub proof fn law_store_says_what_is_in_its_rows(store: SqliteJobStore, key: Seq<char>, i: int)
    ensures
        store@.tasks.contains_key(key) == store.tasks@.contains_key(key),
        store.tasks@.contains_key(key) ==> {
            let row = store.tasks@[key];
            let said = store@.tasks[key];
            &&& said.job_id == row.job_id@
            &&& said.node_id == row.node_id@
            &&& said.status == row.status@
            &&& said.exit_code == row.exit_code
            &&& said.created_at is Some <==> row.created_at is Some
            &&& row.created_at matches Some(text) ==> said.created_at == Some(text@)
            &&& said.started_at is Some <==> row.started_at is Some
            &&& row.started_at matches Some(text) ==> said.started_at == Some(text@)
            &&& said.exited_at is Some <==> row.exited_at is Some
            &&& row.exited_at matches Some(text) ==> said.exited_at == Some(text@)
        },
        store@.nodes.contains_key(key) == store.nodes@.contains_key(key),
        store.nodes@.contains_key(key) ==> {
            &&& store@.nodes[key].node_name == store.nodes@[key].node_name@
            &&& store@.nodes[key].last_seen == store.nodes@[key].last_seen@
            &&& store@.nodes[key].payload == store.nodes@[key].payload@
        },
        store@.logs.len() == store.logs@.len(),
        0 <= i < store.logs@.len() ==> {
            let row = store.logs@[i];
            let said = store@.logs[i];
            &&& said.job_id == row.job_id@
            &&& said.task_id == row.task_id@
            &&& said.node_id == row.node_id@
            &&& said.stream == row.stream@
            &&& said.timestamp == row.timestamp@
            &&& said.line == row.line@
            &&& said.offset == row.offset
        },
{
}

/// The names of the three streams are read as these streams, and any other name as the system's.
pub proof fn law_streams_are_read_by_name(name: Seq<char>)
    ensures
        name == "stdout"@ ==> named_stream(name) == LogStream::Stdout,
        name == "stderr"@ ==> named_stream(name) == LogStream::Stderr,
        name != "stdout"@ && name != "stderr"@ ==> named_stream(name) == LogStream::System,
{
    reveal_strlit("stdout");
    reveal_strlit("stderr");
    assert("stdout"@[3] != "stderr"@[3]);
}

/// A log line that is read from a row says what the row says; its time is that of the row where
/// the row's text is one.
pub proof fn law_line_says_what_its_row_says(row: LogRowView, line: LogLine)
    requires
        row.read_as(line),
    ensures
        line.job_id@ == row.job_id,
        line.task_id@ == row.task_id,
        line.node_id@ == row.node_id,
        line.stream == named_stream(row.stream),
        line.line@ == row.line,
        line.offset == row.offset as u64,
        parsed_text(row.timestamp) is Some ==> line.timestamp == parsed_text(row.timestamp)->0,
{
}

} // verus!
