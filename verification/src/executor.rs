//! What a worker keeps of the processes it runs, and what it tells of them.
use vstd::prelude::*;
use vstd::utf8::encode_utf8;

use crate::ids::{JobId, NodeId, TaskId};
use crate::protocol::{DurationSpec, LogLine, LogStream, RunSpec, TaskExited, TaskStarted};
use crate::sandbox::SandboxCommand;
use crate::table::Table;
use crate::text::{decimal, decimal_text, enclosed};
use crate::time::Timestamp;

verus! {

/// What happens to a task.
#[derive(Debug)]
pub enum ExecutionEvent {
    Started(TaskStarted),
    Log(LogLine),
    Exited(TaskExited),
}

/// A run and the process it becomes.
#[derive(Debug)]
pub struct ExecutionRequest {
    pub spec: RunSpec,
    pub command: SandboxCommand,
}

/// A task that was started.
#[derive(Debug)]
pub struct TaskHandle {
    pub task_id: TaskId,
    pub pid: Option<u32>,
}

/// The task that is to be ended does not run.
#[derive(Debug)]
pub struct NotRunning {
    pub task_id: TaskId,
}

impl NotRunning {
    /// The error in words.
    pub fn message(&self) -> (r: String)
        ensures
            r@ == "task "@ + self.task_id@ + " is not running"@,
    {
        enclosed("task ", self.task_id.as_str(), " is not running")
    }
}

/// The processes that run, by task.
#[derive(Debug)]
pub struct LocalExecutor {
    pub processes: Table<u32>,
}

impl Default for LocalExecutor {
    fn default() -> (r: Self)
        ensures
            r@ == Map::<Seq<char>, u32>::empty(),
    {
        LocalExecutor { processes: Table::new() }
    }
}

impl View for LocalExecutor {
    type V = Map<Seq<char>, u32>;

    open spec fn view(&self) -> Map<Seq<char>, u32> {
        self.processes@
    }
}

impl LocalExecutor {
    /// The number of processes that run.
    pub fn running_count(&self) -> (r: usize)
        ensures
            r == self@.dom().len(),
    {
        self.processes.len()
    }

    /// Takes a process in that was started for a run, and says so. A process that has ended
    /// already has no number and is not kept.
    pub fn started(&mut self, spec: &RunSpec, pid: Option<u32>, now: Timestamp) -> (r: TaskStarted)
        ensures
            final(self)@ == (match pid {
                Some(pid) => old(self)@.insert(spec.task_id@, pid),
                None => old(self)@,
            }),
            r == (TaskStarted {
                job_id: spec.job_id,
                task_id: spec.task_id,
                node_id: spec.node_id,
                pid,
                timestamp: now,
            }),
    {
        match pid {
            Some(pid) => {
                self.processes.insert(spec.task_id.to_string(), pid);
            },
            None => {},
        }
        TaskStarted {
            job_id: spec.job_id.clone(),
            task_id: spec.task_id.clone(),
            node_id: spec.node_id.clone(),
            pid,
            timestamp: now,
        }
    }

    /// Takes in that the process of a task has ended, and says so.
    pub fn exited(
        &mut self,
        job_id: JobId,
        task_id: TaskId,
        node_id: NodeId,
        end: WaitEnd,
        now: Timestamp,
    ) -> (r: TaskExited)
        ensures
            final(self)@ == old(self)@.remove(task_id@),
            r == (TaskExited {
                job_id,
                task_id,
                node_id,
                exit_code: end.code(),
                success: end.succeeded(),
                timestamp: now,
            }),
            end matches WaitEnd::Status { code, success } ==> r.exit_code == code && r.success
                == success,
            !(end is Status) ==> r.exit_code is None && !r.success,
    {
        self.processes.remove(task_id.as_str());
        let (exit_code, success) = exit_result(end);
        TaskExited { job_id, task_id, node_id, exit_code, success, timestamp: now }
    }

    /// The process that is to be ended for a task.
    pub fn kill(&self, task_id: &TaskId) -> (r: Result<u32, NotRunning>)
        ensures
            match r {
                Ok(pid) => self@.contains_key(task_id@) && pid == self@[task_id@],
                Err(e) => !self@.contains_key(task_id@) && e.task_id == *task_id,
            },
    {
        match self.processes.get(task_id.as_str()) {
            Some(pid) => Ok(*pid),
            None => Err(NotRunning { task_id: task_id.clone() }),
        }
    }
}

/// How the wait for a process ended: with its status, with a failure to wait, or with the end of
/// the time that the task had.
#[derive(Clone, Copy, Debug, PartialEq, Eq, Structural)]
pub enum WaitEnd {
    Status { code: Option<i32>, success: bool },
    Failed,
    TimedOut,
}

impl WaitEnd {
    /// The exit code, which only a status has.
    pub open spec fn code(self) -> Option<i32> {
        match self {
            WaitEnd::Status { code, .. } => code,
            _ => None,
        }
    }

    /// Whether the task succeeded, which only a status can say.
    pub open spec fn succeeded(self) -> bool {
        match self {
            WaitEnd::Status { success, .. } => success,
            _ => false,
        }
    }
}

/// The exit code and the success of a task by how the wait for it ended.
pub fn exit_result(end: WaitEnd) -> (r: (Option<i32>, bool))
    ensures
        r == (end.code(), end.succeeded()),
        end matches WaitEnd::Status { code, success } ==> r.0 == code && r.1 == success,
        !(end is Status) ==> r.0 is None && !r.1,
{
    match end {
        WaitEnd::Status { code, success } => (code, success),
        WaitEnd::Failed => (None, false),
        WaitEnd::TimedOut => (None, false),
    }
}

/// The seconds that a task has; zero seconds are no limit.
pub fn deadline(timeout: Option<DurationSpec>) -> (r: Option<u64>)
    ensures
        r == (match timeout {
            Some(limit) => if limit.seconds > 0 {
                Some(limit.seconds)
            } else {
                None
            },
            None => None,
        }),
{
    match timeout {
        Some(limit) => if limit.seconds > 0 {
            Some(limit.seconds)
        } else {
            None
        },
        None => None,
    }
}

/// The log line that says that a task has used up its time.
pub fn timeout_line(
    job_id: &JobId,
    task_id: &TaskId,
    node_id: &NodeId,
    seconds: u64,
    now: Timestamp,
) -> (r: LogLine)
    ensures
        r.job_id == *job_id,
        r.task_id == *task_id,
        r.node_id == *node_id,
        r.stream == LogStream::System,
        r.timestamp == now,
        r.line@ == "task timed out after "@ + decimal_text(seconds as nat)
            + "s; terminating process group"@,
        r.offset == 0,
{
    LogLine {
        job_id: job_id.clone(),
        task_id: task_id.clone(),
        node_id: node_id.clone(),
        stream: LogStream::System,
        timestamp: now,
        line: enclosed(
            "task timed out after ",
            decimal(seconds).as_str(),
            "s; terminating process group",
        ),
        offset: 0,
    }
}

/// A step towards the end of a process that has used up its time.
#[derive(Clone, Copy, Debug, PartialEq, Eq, Structural)]
pub enum EndStep {
    /// Ask the process group to end.
    AskGroup { pid: u32 },
    /// Wait this many seconds, then see whether the process still runs.
    Wait { seconds: u64 },
    /// End the process group.
    KillGroup { pid: u32 },
    /// End the process itself.
    KillProcess,
    /// Take the process' status in; there is nothing left to do.
    Reap,
}

/// The step after another, for a process with this number; `runs` says whether the process was
/// found running after a wait. A group is asked first and ended after five seconds if the
/// process still runs; a process without number is ended at once.
pub open spec fn step_after(last: Option<EndStep>, pid: Option<u32>, runs: bool) -> EndStep {
    match pid {
        Some(pid) => match last {
            None => EndStep::AskGroup { pid },
            Some(EndStep::AskGroup { .. }) => EndStep::Wait { seconds: 5 },
            Some(EndStep::Wait { .. }) => if runs {
                EndStep::KillGroup { pid }
            } else {
                EndStep::Reap
            },
            _ => EndStep::Reap,
        },
        None => match last {
            None => EndStep::KillProcess,
            _ => EndStep::Reap,
        },
    }
}

/// The step after another towards the end of a process.
pub fn next_end_step(last: Option<EndStep>, pid: Option<u32>, runs: bool) -> (r: EndStep)
    ensures
        r == step_after(last, pid, runs),
{
    match pid {
        Some(pid) => match last {
            None => EndStep::AskGroup { pid },
            Some(EndStep::AskGroup { .. }) => EndStep::Wait { seconds: 5 },
            Some(EndStep::Wait { .. }) => if runs {
                EndStep::KillGroup { pid }
            } else {
                EndStep::Reap
            },
            _ => EndStep::Reap,
        },
        None => match last {
            None => EndStep::KillProcess,
            _ => EndStep::Reap,
        },
    }
}

/// The end of a process comes in at most four steps, and the group is killed only after it was
/// asked and still ran five seconds later.
pub proof fn law_process_is_reaped(pid: Option<u32>, runs: bool)
    ensures
        ({
            let first = step_after(None, pid, runs);
            let second = step_after(Some(first), pid, runs);
            let third = step_after(Some(second), pid, runs);
            let fourth = step_after(Some(third), pid, runs);
            &&& fourth == EndStep::Reap
            &&& !(first is KillGroup) && !(second is KillGroup)
            &&& third is KillGroup <==> runs && pid is Some
            &&& pid is Some ==> first is AskGroup && second == EndStep::Wait { seconds: 5 }
        }),
{
}

/// The number of bytes of a text.
pub open spec fn byte_len(text: Seq<char>) -> usize {
    encode_utf8(text).len() as usize
}

/// The place in a stream of a task's output: the bytes read so far, line ends included.
#[derive(Clone, Copy, Debug, PartialEq, Eq, Structural)]
pub struct LogCursor {
    pub offset: u64,
}

impl LogCursor {
    /// The beginning of a stream.
    pub fn new() -> (r: Self)
        ensures
            r.offset == 0,
    {
        LogCursor { offset: 0 }
    }

    /// Whether one more line fits.
    pub fn fits(&self, line: &String) -> (r: bool)
        ensures
            r == (self.offset + byte_len(line@) + 1 <= u64::MAX),
    {
        let length = line.as_str().len() as u64;
        length < u64::MAX - self.offset
    }

    /// The log line of the next line of output; the place moves past the line and its end.
    pub fn next_line(&mut self, spec: &RunSpec, stream: LogStream, line: String, now: Timestamp) -> (r:
        LogLine)
        requires
            old(self).offset + byte_len(line@) + 1 <= u64::MAX,
        ensures
            final(self).offset == old(self).offset + byte_len(line@) + 1,
            r == (LogLine {
                job_id: spec.job_id,
                task_id: spec.task_id,
                node_id: spec.node_id,
                stream,
                timestamp: now,
                line,
                offset: old(self).offset,
            }),
    {
        let length = line.as_str().len() as u64;
        let offset = self.offset;
        self.offset = offset + length + 1;
        LogLine {
            job_id: spec.job_id.clone(),
            task_id: spec.task_id.clone(),
            node_id: spec.node_id.clone(),
            stream,
            timestamp: now,
            line,
            offset,
        }
    }
}

/// The place in a stream after these lines.
pub open spec fn offset_after(lines: Seq<Seq<char>>) -> int
    decreases lines.len(),
{
    if lines.len() == 0 {
        0
    } else {
        offset_after(lines.drop_last()) + byte_len(lines.last()) + 1
    }
}

/// Later lines of a stream have larger offsets, by at least their distance.
pub proof fn law_offsets_grow(lines: Seq<Seq<char>>, i: int, j: int)
    requires
        0 <= i <= j <= lines.len(),
    ensures
        offset_after(lines.take(i)) + (j - i) <= offset_after(lines.take(j)),
    decreases j - i,
{
    if i < j {
        law_offsets_grow(lines, i, j - 1);
        assert(lines.take(j).drop_last() =~= lines.take(j - 1));
    }
}

/// A task has the exit code and the success of its process' status; one whose process could not
/// be waited for, or that used up its time, has no exit code and did not succeed.
pub proof fn law_end_is_that_of_the_process(end: WaitEnd)
    ensures
        end matches WaitEnd::Status { code, success } ==> end.code() == code && end.succeeded()
            == success,
        end == WaitEnd::Failed || end == WaitEnd::TimedOut ==> end.code() is None
            && !end.succeeded(),
{
}

/// Each step towards the end of a process is for that process: a process with a number is asked,
/// and ended if need be, as the group of that number; only a process without one is ended alone.
/// A group is ended only if its process still runs, and after it was ended or did not run any
/// more nothing is left to do.
pub proof fn law_end_steps_are_for_the_process(last: Option<EndStep>, pid: Option<u32>, runs: bool)
    ensures
        ({
            let step = step_after(last, pid, runs);
            &&& step matches EndStep::AskGroup { pid: asked } ==> pid == Some(asked) && last is None
            &&& step matches EndStep::KillGroup { pid: ended } ==> pid == Some(ended) && runs && (
            last matches Some(EndStep::Wait { .. }))
            &&& step is KillProcess ==> pid is None && last is None
            &&& step matches EndStep::Wait { seconds } ==> seconds == 5 && pid is Some && (
            last matches Some(EndStep::AskGroup { .. }))
            &&& last is None && pid is Some ==> step is AskGroup
            &&& last is None && pid is None ==> step is KillProcess
            &&& pid is Some && (last matches Some(EndStep::Wait { .. })) && runs ==> step is KillGroup
            &&& pid is Some && (last matches Some(EndStep::Wait { .. })) && !runs ==> step is Reap
            &&& (last matches Some(EndStep::KillGroup { .. })) || (last
                matches Some(EndStep::KillProcess)) ==> step is Reap
        }),
{
}

/// The place in a stream moves on by the bytes of each line and one more for its end; the bytes
/// of an ASCII line are its characters.
pub proof fn law_offset_moves_past_the_line(lines: Seq<Seq<char>>, line: Seq<char>)
    ensures
        offset_after(Seq::<Seq<char>>::empty()) == 0,
        offset_after(lines.push(line)) == offset_after(lines) + encode_utf8(line).len() as usize
            + 1,
        vstd::utf8::is_ascii_chars(line) && line.len() <= usize::MAX ==> offset_after(
            lines.push(line),
        ) == offset_after(lines) + line.len() + 1,
{
    assert(lines.push(line).drop_last() =~= lines);
    if vstd::utf8::is_ascii_chars(line) {
        vstd::utf8::is_ascii_chars_encode_utf8(line);
    }
}

/// What is said of an executor is which process it holds for which task.
pub proof fn law_executor_says_what_it_holds(executor: LocalExecutor)
    ensures
        executor@ == executor.processes@,
{
}

} // verus!
