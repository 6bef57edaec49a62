//! What the recorded state and the recent logs of a job point to.
use vstd::prelude::*;
use vstd::string::StringExecFns;

use crate::protocol::{JobDiagnosis, JobSummary, LogLine, LogStream, TaskSummary};
use crate::text::{
    chars_of, contains_chars, decimal, decimal_text, join, joined, lower_text, occurs_at,
    occurs_in, same, texts, to_lower,
};

verus! {

/// Whether a task status counts as failed.
pub open spec fn is_failed(task: TaskSummary) -> bool {
    task.status@ == "failed"@
}

/// Whether a task status counts as still running.
pub open spec fn is_active(task: TaskSummary) -> bool {
    task.status@ == "queued"@ || task.status@ == "running"@
}

/// The number of failed tasks.
pub open spec fn failed_count(tasks: Seq<TaskSummary>) -> nat {
    tasks.filter(|t: TaskSummary| is_failed(t)).len()
}

/// The number of tasks that are queued or running.
pub open spec fn active_count(tasks: Seq<TaskSummary>) -> nat {
    tasks.filter(|t: TaskSummary| is_active(t)).len()
}

/// Whether a lower-case text speaks of an error.
pub open spec fn mentions_error(lower: Seq<char>) -> bool {
    ||| occurs_in(lower, "error"@)
    ||| occurs_in(lower, "exception"@)
    ||| occurs_in(lower, "traceback"@)
    ||| occurs_in(lower, "failed"@)
    ||| occurs_in(lower, "killed"@)
    ||| occurs_in(lower, "out of memory"@)
    ||| occurs_in(lower, "no space left"@)
    ||| occurs_in(lower, "permission denied"@)
    ||| occurs_in(lower, "module not found"@)
    ||| occurs_in(lower, "command not found"@)
    ||| occurs_in(lower, "nccl"@)
    ||| occurs_in(lower, "cuda"@)
}

/// Whether a log line counts as an error: it does not come from standard output, or its text
/// speaks of an error.
pub open spec fn is_error_line(line: LogLine) -> bool {
    line.stream == LogStream::Stderr || line.stream == LogStream::System || mentions_error(
        lower_text(line.line@),
    )
}

/// The error lines, in their order.
pub open spec fn error_lines(logs: Seq<LogLine>) -> Seq<LogLine> {
    logs.filter(|l: LogLine| is_error_line(l))
}

/// The last error lines, at most twenty, in their order.
pub open spec fn last_errors(logs: Seq<LogLine>) -> Seq<LogLine> {
    let errors = error_lines(logs);
    if errors.len() > 20 {
        errors.skip(errors.len() - 20)
    } else {
        errors
    }
}

/// The lines in lower case.
pub open spec fn lower_lines(logs: Seq<LogLine>) -> Seq<Seq<char>> {
    logs.map_values(|l: LogLine| lower_text(l.line@))
}

/// The lines in lower case, one under the other.
pub open spec fn log_text(logs: Seq<LogLine>) -> Seq<char> {
    joined(lower_lines(logs), "\n"@)
}

/// The hint alone where the condition holds, nothing otherwise.
pub open spec fn hint_if(condition: bool, hint: Seq<char>) -> Seq<Seq<char>> {
    if condition {
        seq![hint]
    } else {
        Seq::empty()
    }
}

/// The hints that patterns in the log text give.
pub open spec fn pattern_hints(t: Seq<char>) -> Seq<Seq<char>> {
    hint_if(
        occurs_in(t, "out of memory"@) || occurs_in(t, "cuda out of memory"@),
        "CUDA OOM detected; reduce batch size, sequence length, or per-process GPU memory use."@,
    ) + hint_if(
        occurs_in(t, "nccl"@),
        "NCCL output detected; check MASTER_ADDR/MASTER_PORT, node reachability, IB/NVLink setup, and matching world size."@,
    ) + hint_if(
        occurs_in(t, "no space left"@) || occurs_in(t, "disk quota"@),
        "Disk capacity or quota issue detected; check dataset/cache/output paths."@,
    ) + hint_if(
        occurs_in(t, "permission denied"@),
        "Permission issue detected; check file ownership, execute bits, and policy rules."@,
    ) + hint_if(
        occurs_in(t, "module not found"@) || occurs_in(t, "no module named"@),
        "Python dependency issue detected; verify the active environment on every node."@,
    ) + hint_if(
        occurs_in(t, "command not found"@) || occurs_in(t, ": not found"@),
        "Command lookup failed; verify PATH and installed binaries on every node."@,
    ) + (if occurs_in(t, "task timed out after"@) {
        seq![
            "Runtime timeout killed the job; increase --timeout-seconds or inspect why the task exceeded its limit."@,
        ]
    } else {
        hint_if(
            occurs_in(t, "connection refused"@) || occurs_in(t, "timed out"@),
            "Network connection issue detected; verify ports, hostnames, firewall rules, and rendezvous address."@,
        )
    })
}

/// All hints: those of the log text, or else the one that the tasks' states give.
pub open spec fn hints_for(t: Seq<char>, failed: nat, active: nat) -> Seq<Seq<char>> {
    if pattern_hints(t).len() > 0 {
        pattern_hints(t)
    } else if failed > 0 {
        seq![
            "One or more tasks failed; inspect recent stderr and worker logs for the root cause."@,
        ]
    } else if active > 0 {
        seq![
            "Job is still running or queued; tail logs and check node liveness before intervening."@,
        ]
    } else {
        seq!["No obvious failure pattern found in recent logs."@]
    }
}

/// The one-line summary of a job.
pub open spec fn summary_text(
    job_id: Seq<char>,
    status: Seq<char>,
    total: nat,
    failed: nat,
    active: nat,
) -> Seq<char> {
    if status == "succeeded"@ {
        "job "@ + job_id + " succeeded across "@ + decimal_text(total) + " task(s)"@
    } else if active > 0 {
        "job "@ + job_id + " is "@ + status + " with "@ + decimal_text(active)
            + " running/queued task(s)"@
    } else if failed > 0 {
        "job "@ + job_id + " failed with "@ + decimal_text(failed) + " failed task(s) out of "@
            + decimal_text(total)
    } else {
        "job "@ + job_id + " status is "@ + status
    }
}

/// Whether a lower-case text speaks of an error.
fn speaks_of_error(lower: &str) -> (r: bool)
    ensures
        r == mentions_error(lower@),
{
    let t = chars_of(lower);
    contains_chars(&t, "error") || contains_chars(&t, "exception") || contains_chars(
        &t,
        "traceback",
    ) || contains_chars(&t, "failed") || contains_chars(&t, "killed") || contains_chars(
        &t,
        "out of memory",
    ) || contains_chars(&t, "no space left") || contains_chars(&t, "permission denied")
        || contains_chars(&t, "module not found") || contains_chars(&t, "command not found")
        || contains_chars(&t, "nccl") || contains_chars(&t, "cuda")
}

/// Whether a log line counts as an error.
fn error_line(line: &LogLine) -> (r: bool)
    ensures
        r == is_error_line(*line),
{
    match line.stream {
        LogStream::Stderr => true,
        LogStream::System => true,
        LogStream::Stdout => speaks_of_error(to_lower(line.line.as_str()).as_str()),
    }
}

/// The last error lines, at most twenty, in their order.
fn collect_errors(logs: &Vec<LogLine>) -> (r: Vec<LogLine>)
    ensures
        r@ == last_errors(logs@),
{
    let ghost keep = |l: LogLine| is_error_line(l);
    let mut errors: Vec<LogLine> = Vec::new();
    proof {
        assert(logs@.take(0).filter(keep) =~= Seq::<LogLine>::empty()) by {
            reveal(Seq::filter);
        }
    }
    for i in 0..logs.len()
        invariant
            keep == (|l: LogLine| is_error_line(l)),
            errors@ == logs@.take(i as int).filter(keep),
    {
        proof {
            reveal(Seq::filter);
            assert(logs@.take(i + 1).drop_last() =~= logs@.take(i as int));
            assert(logs@.take(i + 1).last() == logs@[i as int]);
        }
        if error_line(&logs[i]) {
            errors.push(logs[i].clone());
        }
    }
    proof {
        assert(logs@.take(logs.len() as int) =~= logs@);
    }
    if errors.len() > 20 {
        let at: usize = errors.len() - 20;
        let last = errors.split_off(at);
        last
    } else {
        errors
    }
}

/// The lines in lower case, one under the other.
fn lower_log_text(logs: &Vec<LogLine>) -> (r: String)
    ensures
        r@ == log_text(logs@),
{
    let mut lines: Vec<String> = Vec::new();
    for i in 0..logs.len()
        invariant
            texts(lines@) == lower_lines(logs@.take(i as int)),
    {
        let lower = to_lower(logs[i].line.as_str());
        proof {
            assert(texts(lines@.push(lower)) =~= texts(lines@).push(lower@));
            assert(lower_lines(logs@.take(i + 1)) =~= lower_lines(logs@.take(i as int)).push(
                lower@,
            ));
        }
        lines.push(lower);
    }
    proof {
        assert(logs@.take(logs.len() as int) =~= logs@);
    }
    join(&lines, "\n")
}

/// Adds the hint to the list where the condition holds.
fn add_hint(hints: &mut Vec<String>, condition: bool, hint: &str)
    ensures
        texts(final(hints)@) == texts(old(hints)@) + hint_if(condition, hint@),
{
    let ghost before = hints@;
    if condition {
        hints.push(hint.to_owned());
    }
    proof {
        assert(texts(hints@) =~= texts(before) + hint_if(condition, hint@));
    }
}

/// The hints that patterns in the log text give.
fn find_patterns(text: &str) -> (hints: Vec<String>)
    ensures
        texts(hints@) == pattern_hints(text@),
{
    let t = chars_of(text);
    let mut hints: Vec<String> = Vec::new();
    let oom = contains_chars(&t, "out of memory") || contains_chars(&t, "cuda out of memory");
    add_hint(
        &mut hints,
        oom,
        "CUDA OOM detected; reduce batch size, sequence length, or per-process GPU memory use.",
    );
    proof {
        assert(texts(hints@) =~= hint_if(
            occurs_in(text@, "out of memory"@) || occurs_in(text@, "cuda out of memory"@),
            "CUDA OOM detected; reduce batch size, sequence length, or per-process GPU memory use."@,
        ));
    }
    let nccl = contains_chars(&t, "nccl");
    add_hint(
        &mut hints,
        nccl,
        "NCCL output detected; check MASTER_ADDR/MASTER_PORT, node reachability, IB/NVLink setup, and matching world size.",
    );
    let disk = contains_chars(&t, "no space left") || contains_chars(&t, "disk quota");
    add_hint(
        &mut hints,
        disk,
        "Disk capacity or quota issue detected; check dataset/cache/output paths.",
    );
    let permission = contains_chars(&t, "permission denied");
    add_hint(
        &mut hints,
        permission,
        "Permission issue detected; check file ownership, execute bits, and policy rules.",
    );
    let python = contains_chars(&t, "module not found") || contains_chars(&t, "no module named");
    add_hint(
        &mut hints,
        python,
        "Python dependency issue detected; verify the active environment on every node.",
    );
    let command = contains_chars(&t, "command not found") || contains_chars(&t, ": not found");
    add_hint(
        &mut hints,
        command,
        "Command lookup failed; verify PATH and installed binaries on every node.",
    );
    if contains_chars(&t, "task timed out after") {
        add_hint(
            &mut hints,
            true,
            "Runtime timeout killed the job; increase --timeout-seconds or inspect why the task exceeded its limit.",
        );
    } else {
        let network = contains_chars(&t, "connection refused") || contains_chars(&t, "timed out");
        add_hint(
            &mut hints,
            network,
            "Network connection issue detected; verify ports, hostnames, firewall rules, and rendezvous address.",
        );
    }
    hints
}

/// Whether the task has failed.
fn task_failed(task: &TaskSummary) -> (r: bool)
    ensures
        r == is_failed(*task),
{
    same(task.status.as_str(), "failed")
}

/// Whether the task is queued or running.
pub fn task_active(task: &TaskSummary) -> (r: bool)
    ensures
        r == is_active(*task),
{
    same(task.status.as_str(), "queued") || same(task.status.as_str(), "running")
}

/// The numbers of failed tasks and of tasks that are queued or running.
fn count_tasks(tasks: &Vec<TaskSummary>) -> (r: (usize, usize))
    ensures
        r.0 == failed_count(tasks@),
        r.1 == active_count(tasks@),
{
    let ghost failed_pred = |t: TaskSummary| is_failed(t);
    let ghost active_pred = |t: TaskSummary| is_active(t);
    let mut failed: usize = 0;
    let mut active: usize = 0;
    proof {
        reveal(Seq::filter);
        assert(tasks@.take(0).filter(failed_pred).len() == 0);
        assert(tasks@.take(0).filter(active_pred).len() == 0);
    }
    for i in 0..tasks.len()
        invariant
            failed_pred == (|t: TaskSummary| is_failed(t)),
            active_pred == (|t: TaskSummary| is_active(t)),
            failed == tasks@.take(i as int).filter(failed_pred).len(),
            active == tasks@.take(i as int).filter(active_pred).len(),
            failed <= i,
            active <= i,
    {
        proof {
            reveal(Seq::filter);
            assert(tasks@.take(i + 1).drop_last() =~= tasks@.take(i as int));
            assert(tasks@.take(i + 1).last() == tasks@[i as int]);
        }
        if task_failed(&tasks[i]) {
            failed += 1;
        }
        if task_active(&tasks[i]) {
            active += 1;
        }
    }
    proof {
        assert(tasks@.take(tasks.len() as int) =~= tasks@);
    }
    (failed, active)
}

/// The one-line summary of a job.
fn summarize(job_id: &str, status: &str, total: usize, failed: usize, active: usize) -> (s: String)
    ensures
        s@ == summary_text(job_id@, status@, total as nat, failed as nat, active as nat),
{
    let mut s = "job ".to_owned();
    s.append(job_id);
    if same(status, "succeeded") {
        s.append(" succeeded across ");
        s.append(decimal(total as u64).as_str());
        s.append(" task(s)");
    } else if active > 0 {
        s.append(" is ");
        s.append(status);
        s.append(" with ");
        s.append(decimal(active as u64).as_str());
        s.append(" running/queued task(s)");
    } else if failed > 0 {
        s.append(" failed with ");
        s.append(decimal(failed as u64).as_str());
        s.append(" failed task(s) out of ");
        s.append(decimal(total as u64).as_str());
    } else {
        s.append(" status is ");
        s.append(status);
    }
    s
}

/// Whether a diagnosis says what the state of a job and its recent logs point to.
pub open spec fn is_diagnosis(job: JobSummary, logs: Seq<LogLine>, r: JobDiagnosis) -> bool {
    let failed = failed_count(job.tasks@);
    let active = active_count(job.tasks@);
    &&& r.job_id == job.job_id
    &&& r.status == job.status
    &&& r.tasks == job.tasks
    &&& r.recent_errors@ == last_errors(logs)
    &&& texts(r.hints@) == hints_for(log_text(logs), failed, active)
    &&& r.summary@ == summary_text(job.job_id@, job.status@, job.tasks@.len(), failed, active)
}

/// What the state of a job and its recent logs point to.
pub fn build_job_diagnosis(job: JobSummary, logs: &Vec<LogLine>) -> (r: JobDiagnosis)
    ensures
        is_diagnosis(job, logs@, r),
{
    let (failed, active) = count_tasks(&job.tasks);
    let recent_errors = collect_errors(logs);
    let mut hints = find_patterns(lower_log_text(logs).as_str());
    proof {
        assert(texts(hints@).len() == hints@.len());
    }
    if hints.len() == 0 {
        let hint = if failed > 0 {
            "One or more tasks failed; inspect recent stderr and worker logs for the root cause."
        } else if active > 0 {
            "Job is still running or queued; tail logs and check node liveness before intervening."
        } else {
            "No obvious failure pattern found in recent logs."
        };
        hints.push(hint.to_owned());
        proof {
            assert(texts(hints@) =~= seq![hint@]);
        }
    }
    let summary = summarize(
        job.job_id.as_str(),
        job.status.as_str(),
        job.tasks.len(),
        failed,
        active,
    );
    JobDiagnosis {
        job_id: job.job_id,
        status: job.status,
        summary,
        hints,
        recent_errors,
        tasks: job.tasks,
    }
}

/// There is always a hint.
pub proof fn law_there_is_a_hint(t: Seq<char>, failed: nat, active: nat)
    ensures
        hints_for(t, failed, active).len() > 0,
{
}

/// The errors that are shown are error lines of the log, twenty at most, and end with the last
/// one that there is.
pub proof fn law_recent_errors_are_the_last(logs: Seq<LogLine>)
    ensures
        last_errors(logs).len() <= 20,
        forall|i: int|
            0 <= i < last_errors(logs).len() ==> is_error_line(#[trigger] last_errors(logs)[i])
                && logs.contains(last_errors(logs)[i]),
        logs.len() > 0 && is_error_line(logs.last()) ==> last_errors(logs).len() > 0
            && last_errors(logs).last() == logs.last(),
{
    let errors = error_lines(logs);
    lemma_filtered_lines(logs);
    if logs.len() > 0 && is_error_line(logs.last()) {
        reveal(Seq::filter);
        assert(errors.last() == logs.last());
    }
}

/// What is filtered out of a log are its error lines.
proof fn lemma_filtered_lines(logs: Seq<LogLine>)
    ensures
        forall|i: int|
            0 <= i < error_lines(logs).len() ==> is_error_line(#[trigger] error_lines(logs)[i])
                && logs.contains(error_lines(logs)[i]),
    decreases logs.len(),
{
    reveal(Seq::filter);
    if logs.len() > 0 {
        let fewer = logs.drop_last();
        lemma_filtered_lines(fewer);
        let before = error_lines(fewer);
        let errors = error_lines(logs);
        assert forall|i: int| 0 <= i < errors.len() implies is_error_line(#[trigger] errors[i])
            && logs.contains(errors[i]) by {
            if i < before.len() {
                assert(errors[i] == before[i]);
                assert(fewer.contains(before[i]));
                let k = choose|k: int| 0 <= k < fewer.len() && fewer[k] == before[i];
                assert(logs[k] == before[i]);
            } else {
                assert(errors[i] == logs.last());
                assert(logs[logs.len() - 1] == logs.last());
            }
        }
    }
}

/// A text that stands in a line stands in the lines together.
proof fn lemma_occurs_in_joined(lines: Seq<Seq<char>>, sep: Seq<char>, needle: Seq<char>, i: int)
    requires
        0 <= i < lines.len(),
        occurs_in(lines[i], needle),
    ensures
        occurs_in(joined(lines, sep), needle),
    decreases lines.len(),
{
    if lines.len() > 1 {
        let before = joined(lines.drop_last(), sep);
        let all = joined(lines, sep);
        assert(all == before + sep + lines.last());
        if i < lines.len() - 1 {
            assert(lines.drop_last()[i] == lines[i]);
            lemma_occurs_in_joined(lines.drop_last(), sep, needle, i);
            let at = choose|at: int| occurs_at(before, needle, at);
            assert(all.subrange(at, at + needle.len()) =~= before.subrange(at, at + needle.len()));
            assert(occurs_at(all, needle, at));
        } else {
            let at = choose|at: int| occurs_at(lines[i], needle, at);
            let shift = before.len() + sep.len();
            assert(all.subrange(shift + at, shift + at + needle.len()) =~= lines[i].subrange(
                at,
                at + needle.len(),
            ));
            assert(occurs_at(all, needle, shift + at));
        }
    }
}

/// Where the log holds the line by which a worker says that a task has used up its time, the
/// diagnosis says so.
pub proof fn law_timeout_is_diagnosed(
    logs: Seq<LogLine>,
    i: int,
    rest: Seq<char>,
    failed: nat,
    active: nat,
)
    requires
        0 <= i < logs.len(),
        logs[i].line@ == "task timed out after "@ + rest,
    ensures
        hints_for(log_text(logs), failed, active).contains(
            "Runtime timeout killed the job; increase --timeout-seconds or inspect why the task exceeded its limit."@,
        ),
{
    let hint =
        "Runtime timeout killed the job; increase --timeout-seconds or inspect why the task exceeded its limit."@;
    let needle = "task timed out after"@;
    let lines = lower_lines(logs);
    reveal_strlit("task timed out after");
    reveal_strlit("task timed out after ");
    assert(lines[i].subrange(0, 20) =~= needle);
    assert(occurs_at(lines[i], needle, 0));
    lemma_occurs_in_joined(lines, "\n"@, needle, i);
    let hints = pattern_hints(log_text(logs));
    assert(hints.last() == hint);
    assert(hints[hints.len() - 1] == hint);
}

/// Whether the words stand in a text at a place, whatever letters of the text are capitals.
pub open spec fn says_at(text: Seq<char>, words: Seq<char>, at: int) -> bool {
    &&& 0 <= at
    &&& at + words.len() <= text.len()
    &&& forall|k: int|
        0 <= k < words.len() ==> text[at + k] == #[trigger] words[k] || ('A' <= text[at + k]
            && text[at + k] <= 'Z' && text[at + k] as int + 32 == words[k] as int)
}

/// Whether the words stand anywhere in a text, whatever letters of the text are capitals.
pub open spec fn says(text: Seq<char>, words: Seq<char>) -> bool {
    exists|at: int| #[trigger] says_at(text, words, at)
}

/// Whether a line of a log says the words.
pub open spec fn logs_say(logs: Seq<LogLine>, words: Seq<char>) -> bool {
    exists|i: int| 0 <= i < logs.len() && says((#[trigger] logs[i]).line@, words)
}

/// Whether words have no capitals and stand on one line.
spec fn are_plain(words: Seq<char>) -> bool {
    &&& words.len() > 0
    &&& forall|k: int|
        0 <= k < words.len() ==> !('A' <= #[trigger] words[k] && words[k] <= 'Z') && words[k]
            != '\n'
}

/// Plain words stand in the lower-case form of a text exactly where the text says them.
proof fn lemma_says(text: Seq<char>, words: Seq<char>)
    requires
        are_plain(words),
    ensures
        occurs_in(lower_text(text), words) == says(text, words),
{
    let lower = lower_text(text);
    assert forall|at: int| #[trigger] occurs_at(lower, words, at) == says_at(text, words, at) by {
        if occurs_at(lower, words, at) {
            assert forall|k: int| 0 <= k < words.len() implies text[at + k] == #[trigger] words[k]
                || ('A' <= text[at + k] && text[at + k] <= 'Z' && text[at + k] as int + 32
                == words[k] as int) by {
                assert(lower.subrange(at, at + words.len())[k] == words[k]);
                assert(lower[at + k] == words[k]);
            }
        }
        if says_at(text, words, at) {
            assert forall|k: int| 0 <= k < words.len() implies lower[at + k]
                == #[trigger] words[k] by {}
            assert(lower.subrange(at, at + words.len()) =~= words);
        }
    }
    if occurs_in(lower, words) {
        let at = choose|at: int| #[trigger] occurs_at(lower, words, at);
        assert(says_at(text, words, at));
    }
    if says(text, words) {
        let at = choose|at: int| #[trigger] says_at(text, words, at);
        assert(occurs_at(lower, words, at));
    }
}

/// A text without a line end that stands in lines under one another stands in one of them.
proof fn lemma_occurs_in_one(lines: Seq<Seq<char>>, words: Seq<char>)
    requires
        are_plain(words),
        occurs_in(joined(lines, seq!['\n']), words),
    ensures
        exists|i: int| 0 <= i < lines.len() && occurs_in(#[trigger] lines[i], words),
    decreases lines.len(),
{
    let sep = seq!['\n'];
    let all = joined(lines, sep);
    let at = choose|at: int| #[trigger] occurs_at(all, words, at);
    if lines.len() == 0 {
        assert(false);
    } else if lines.len() == 1 {
        assert(occurs_in(lines[0], words));
    } else {
        let before = joined(lines.drop_last(), sep);
        let last = lines.last();
        let n = before.len() as int;
        assert(all == before + sep + last);
        if at + words.len() <= n {
            assert(before.subrange(at, at + words.len()) =~= all.subrange(at, at + words.len()));
            assert(occurs_at(before, words, at));
            lemma_occurs_in_one(lines.drop_last(), words);
            let i = choose|i: int|
                0 <= i < lines.drop_last().len() && occurs_in(
                    #[trigger] lines.drop_last()[i],
                    words,
                );
            assert(occurs_in(lines[i], words));
        } else if at > n {
            let to = at - n - 1;
            assert(last.subrange(to, to + words.len()) =~= all.subrange(at, at + words.len()));
            assert(occurs_at(last, words, to));
            assert(occurs_in(lines[lines.len() - 1], words));
        } else {
            assert(all.subrange(at, at + words.len())[n - at] == words[n - at]);
            assert(all[n] == '\n');
        }
    }
}

/// Plain words stand in the text of a log exactly where a line of it says them.
proof fn lemma_logs_say(logs: Seq<LogLine>, words: Seq<char>)
    requires
        are_plain(words),
    ensures
        occurs_in(log_text(logs), words) == logs_say(logs, words),
{
    reveal_strlit("\n");
    assert("\n"@ =~= seq!['\n']);
    let lines = lower_lines(logs);
    if occurs_in(log_text(logs), words) {
        lemma_occurs_in_one(lines, words);
        let i = choose|i: int| 0 <= i < lines.len() && occurs_in(#[trigger] lines[i], words);
        lemma_says(logs[i].line@, words);
        assert(says(logs[i].line@, words));
    }
    if logs_say(logs, words) {
        let i = choose|i: int| 0 <= i < logs.len() && says((#[trigger] logs[i]).line@, words);
        lemma_says(logs[i].line@, words);
        assert(occurs_in(lines[i], words));
        lemma_occurs_in_joined(lines, "\n"@, words, i);
    }
}

/// The words that are looked for have no capitals and stand on one line.
proof fn lemma_patterns_are_plain()
    ensures
        are_plain("out of memory"@),
        are_plain("cuda out of memory"@),
        are_plain("nccl"@),
        are_plain("no space left"@),
        are_plain("disk quota"@),
        are_plain("permission denied"@),
        are_plain("module not found"@),
        are_plain("no module named"@),
        are_plain("command not found"@),
        are_plain(": not found"@),
        are_plain("task timed out after"@),
        are_plain("connection refused"@),
        are_plain("timed out"@),
        are_plain("error"@),
        are_plain("exception"@),
        are_plain("traceback"@),
        are_plain("failed"@),
        are_plain("killed"@),
        are_plain("cuda"@),
{
    reveal_strlit("out of memory");
    reveal_strlit("cuda out of memory");
    reveal_strlit("nccl");
    reveal_strlit("no space left");
    reveal_strlit("disk quota");
    reveal_strlit("permission denied");
    reveal_strlit("module not found");
    reveal_strlit("no module named");
    reveal_strlit("command not found");
    reveal_strlit(": not found");
    reveal_strlit("task timed out after");
    reveal_strlit("connection refused");
    reveal_strlit("timed out");
    reveal_strlit("error");
    reveal_strlit("exception");
    reveal_strlit("traceback");
    reveal_strlit("failed");
    reveal_strlit("killed");
    reveal_strlit("cuda");
}

/// Whether a diagnosis gives a hint.
pub open spec fn gives(d: JobDiagnosis, hint: Seq<char>) -> bool {
    exists|i: int| 0 <= i < d.hints@.len() && (#[trigger] d.hints@[i])@ == hint
}

/// Whether a job has a task with a status.
pub open spec fn has_status(job: JobSummary, status: Seq<char>) -> bool {
    exists|i: int| 0 <= i < job.tasks@.len() && (#[trigger] job.tasks@[i]).status@ == status
}

/// Each hint that goes by the log is given exactly where a line says its words, in capitals or
/// not.
pub proof fn law_hints_follow_the_log(job: JobSummary, logs: Seq<LogLine>, d: JobDiagnosis)
    requires
        is_diagnosis(job, logs, d),
    ensures
        gives(
            d,
            "CUDA OOM detected; reduce batch size, sequence length, or per-process GPU memory use."@,
        ) == logs_say(logs, "out of memory"@),
        gives(
            d,
            "NCCL output detected; check MASTER_ADDR/MASTER_PORT, node reachability, IB/NVLink setup, and matching world size."@,
        ) == logs_say(logs, "nccl"@),
        gives(
            d,
            "Disk capacity or quota issue detected; check dataset/cache/output paths."@,
        ) == (logs_say(logs, "no space left"@) || logs_say(logs, "disk quota"@)),
        gives(
            d,
            "Permission issue detected; check file ownership, execute bits, and policy rules."@,
        ) == logs_say(logs, "permission denied"@),
        gives(
            d,
            "Python dependency issue detected; verify the active environment on every node."@,
        ) == (logs_say(logs, "module not found"@) || logs_say(logs, "no module named"@)),
        gives(
            d,
            "Command lookup failed; verify PATH and installed binaries on every node."@,
        ) == (logs_say(logs, "command not found"@) || logs_say(logs, ": not found"@)),
        gives(
            d,
            "Runtime timeout killed the job; increase --timeout-seconds or inspect why the task exceeded its limit."@,
        ) == logs_say(logs, "task timed out after"@),
        gives(
            d,
            "Network connection issue detected; verify ports, hostnames, firewall rules, and rendezvous address."@,
        ) == (!logs_say(logs, "task timed out after"@) && (logs_say(logs, "connection refused"@)
            || logs_say(logs, "timed out"@))),
{
    lemma_patterns_are_plain();
    lemma_hints_differ();
    lemma_logs_say(logs, "out of memory"@);
    lemma_logs_say(logs, "cuda out of memory"@);
    lemma_logs_say(logs, "nccl"@);
    lemma_logs_say(logs, "no space left"@);
    lemma_logs_say(logs, "disk quota"@);
    lemma_logs_say(logs, "permission denied"@);
    lemma_logs_say(logs, "module not found"@);
    lemma_logs_say(logs, "no module named"@);
    lemma_logs_say(logs, "command not found"@);
    lemma_logs_say(logs, ": not found"@);
    lemma_logs_say(logs, "task timed out after"@);
    lemma_logs_say(logs, "connection refused"@);
    lemma_logs_say(logs, "timed out"@);
    lemma_long_pattern(log_text(logs));
    lemma_hint_of_log(
        job,
        logs,
        d,
        "CUDA OOM detected; reduce batch size, sequence length, or per-process GPU memory use."@,
    );
    lemma_pattern_hints(
        log_text(logs),
        "CUDA OOM detected; reduce batch size, sequence length, or per-process GPU memory use."@,
    );
    lemma_hint_of_log(
        job,
        logs,
        d,
        "NCCL output detected; check MASTER_ADDR/MASTER_PORT, node reachability, IB/NVLink setup, and matching world size."@,
    );
    lemma_pattern_hints(
        log_text(logs),
        "NCCL output detected; check MASTER_ADDR/MASTER_PORT, node reachability, IB/NVLink setup, and matching world size."@,
    );
    lemma_hint_of_log(
        job,
        logs,
        d,
        "Disk capacity or quota issue detected; check dataset/cache/output paths."@,
    );
    lemma_pattern_hints(
        log_text(logs),
        "Disk capacity or quota issue detected; check dataset/cache/output paths."@,
    );
    lemma_hint_of_log(
        job,
        logs,
        d,
        "Permission issue detected; check file ownership, execute bits, and policy rules."@,
    );
    lemma_pattern_hints(
        log_text(logs),
        "Permission issue detected; check file ownership, execute bits, and policy rules."@,
    );
    lemma_hint_of_log(
        job,
        logs,
        d,
        "Python dependency issue detected; verify the active environment on every node."@,
    );
    lemma_pattern_hints(
        log_text(logs),
        "Python dependency issue detected; verify the active environment on every node."@,
    );
    lemma_hint_of_log(
        job,
        logs,
        d,
        "Command lookup failed; verify PATH and installed binaries on every node."@,
    );
    lemma_pattern_hints(
        log_text(logs),
        "Command lookup failed; verify PATH and installed binaries on every node."@,
    );
    lemma_hint_of_log(
        job,
        logs,
        d,
        "Runtime timeout killed the job; increase --timeout-seconds or inspect why the task exceeded its limit."@,
    );
    lemma_pattern_hints(
        log_text(logs),
        "Runtime timeout killed the job; increase --timeout-seconds or inspect why the task exceeded its limit."@,
    );
    lemma_hint_of_log(
        job,
        logs,
        d,
        "Network connection issue detected; verify ports, hostnames, firewall rules, and rendezvous address."@,
    );
    lemma_pattern_hints(
        log_text(logs),
        "Network connection issue detected; verify ports, hostnames, firewall rules, and rendezvous address."@,
    );
}


/// No two hints are the same.
proof fn lemma_hints_differ()
    ensures
        "CUDA OOM detected; reduce batch size, sequence length, or per-process GPU memory use."@.len() == 85,
        "NCCL output detected; check MASTER_ADDR/MASTER_PORT, node reachability, IB/NVLink setup, and matching world size."@.len() == 113,
        "Disk capacity or quota issue detected; check dataset/cache/output paths."@.len() == 72,
        "Permission issue detected; check file ownership, execute bits, and policy rules."@.len() == 80,
        "Python dependency issue detected; verify the active environment on every node."@.len() == 78,
        "Command lookup failed; verify PATH and installed binaries on every node."@.len() == 72,
        "Runtime timeout killed the job; increase --timeout-seconds or inspect why the task exceeded its limit."@.len() == 102,
        "Network connection issue detected; verify ports, hostnames, firewall rules, and rendezvous address."@.len() == 99,
        "One or more tasks failed; inspect recent stderr and worker logs for the root cause."@.len() == 83,
        "Job is still running or queued; tail logs and check node liveness before intervening."@.len() == 85,
        "No obvious failure pattern found in recent logs."@.len() == 48,
        "CUDA OOM detected; reduce batch size, sequence length, or per-process GPU memory use."@[0] == 'C',
        "Job is still running or queued; tail logs and check node liveness before intervening."@[0] == 'J',
        "Disk capacity or quota issue detected; check dataset/cache/output paths."@[0] == 'D',
        "Command lookup failed; verify PATH and installed binaries on every node."@[0] == 'C',
{
    reveal_strlit("CUDA OOM detected; reduce batch size, sequence length, or per-process GPU memory use.");
    reveal_strlit("NCCL output detected; check MASTER_ADDR/MASTER_PORT, node reachability, IB/NVLink setup, and matching world size.");
    reveal_strlit("Disk capacity or quota issue detected; check dataset/cache/output paths.");
    reveal_strlit("Permission issue detected; check file ownership, execute bits, and policy rules.");
    reveal_strlit("Python dependency issue detected; verify the active environment on every node.");
    reveal_strlit("Command lookup failed; verify PATH and installed binaries on every node.");
    reveal_strlit("Runtime timeout killed the job; increase --timeout-seconds or inspect why the task exceeded its limit.");
    reveal_strlit("Network connection issue detected; verify ports, hostnames, firewall rules, and rendezvous address.");
    reveal_strlit("One or more tasks failed; inspect recent stderr and worker logs for the root cause.");
    reveal_strlit("Job is still running or queued; tail logs and check node liveness before intervening.");
    reveal_strlit("No obvious failure pattern found in recent logs.");
}

/// Where the longer of the two patterns for memory stands, the shorter stands too.
proof fn lemma_long_pattern(text: Seq<char>)
    ensures
        occurs_in(text, "cuda out of memory"@) ==> occurs_in(text, "out of memory"@),
{
    reveal_strlit("cuda out of memory");
    reveal_strlit("out of memory");
    if occurs_in(text, "cuda out of memory"@) {
        let at = choose|at: int| #[trigger] occurs_at(text, "cuda out of memory"@, at);
        assert("cuda out of memory"@.subrange(5, 18) =~= "out of memory"@);
        assert(text.subrange(at + 5, at + 18) =~= text.subrange(at, at + 18).subrange(5, 18));
        assert(occurs_at(text, "out of memory"@, at + 5));
    }
}

/// A hint is given alone where its condition holds.
proof fn lemma_hint_if(condition: bool, hint: Seq<char>, x: Seq<char>)
    ensures
        hint_if(condition, hint).contains(x) == (condition && x == hint),
{
    if condition {
        assert(hint_if(condition, hint)[0] == hint);
    }
}

/// What two lists hold together is what either holds.
proof fn lemma_either(a: Seq<Seq<char>>, b: Seq<Seq<char>>, x: Seq<char>)
    ensures
        (a + b).contains(x) == (a.contains(x) || b.contains(x)),
{
    if a.contains(x) {
        assert((a + b)[a.index_of(x)] == x);
    }
    if b.contains(x) {
        assert((a + b)[a.len() + b.index_of(x)] == x);
    }
    if (a + b).contains(x) {
        let i = (a + b).index_of(x);
        if i < a.len() {
            assert(a[i] == x);
        } else {
            assert(b[i - a.len()] == x);
        }
    }
}

/// Which hints the log text gives.
proof fn lemma_pattern_hints(t: Seq<char>, x: Seq<char>)
    ensures
        pattern_hints(t).contains(x) == {
            ||| (occurs_in(t, "out of memory"@) || occurs_in(t, "cuda out of memory"@)) && x
                == "CUDA OOM detected; reduce batch size, sequence length, or per-process GPU memory use."@
            ||| (occurs_in(t, "nccl"@)) && x
                == "NCCL output detected; check MASTER_ADDR/MASTER_PORT, node reachability, IB/NVLink setup, and matching world size."@
            ||| (occurs_in(t, "no space left"@) || occurs_in(t, "disk quota"@)) && x
                == "Disk capacity or quota issue detected; check dataset/cache/output paths."@
            ||| (occurs_in(t, "permission denied"@)) && x
                == "Permission issue detected; check file ownership, execute bits, and policy rules."@
            ||| (occurs_in(t, "module not found"@) || occurs_in(t, "no module named"@)) && x
                == "Python dependency issue detected; verify the active environment on every node."@
            ||| (occurs_in(t, "command not found"@) || occurs_in(t, ": not found"@)) && x
                == "Command lookup failed; verify PATH and installed binaries on every node."@
            ||| (occurs_in(t, "task timed out after"@)) && x
                == "Runtime timeout killed the job; increase --timeout-seconds or inspect why the task exceeded its limit."@
            ||| (!occurs_in(t, "task timed out after"@) && (occurs_in(t, "connection refused"@) || occurs_in(t, "timed out"@))) && x
                == "Network connection issue detected; verify ports, hostnames, firewall rules, and rendezvous address."@
        },
{
    let oom = hint_if(
        occurs_in(t, "out of memory"@) || occurs_in(t, "cuda out of memory"@),
        "CUDA OOM detected; reduce batch size, sequence length, or per-process GPU memory use."@,
    );
    lemma_hint_if(
        occurs_in(t, "out of memory"@) || occurs_in(t, "cuda out of memory"@),
        "CUDA OOM detected; reduce batch size, sequence length, or per-process GPU memory use."@,
        x,
    );
    let nccl = hint_if(
        occurs_in(t, "nccl"@),
        "NCCL output detected; check MASTER_ADDR/MASTER_PORT, node reachability, IB/NVLink setup, and matching world size."@,
    );
    lemma_hint_if(
        occurs_in(t, "nccl"@),
        "NCCL output detected; check MASTER_ADDR/MASTER_PORT, node reachability, IB/NVLink setup, and matching world size."@,
        x,
    );
    let disk = hint_if(
        occurs_in(t, "no space left"@) || occurs_in(t, "disk quota"@),
        "Disk capacity or quota issue detected; check dataset/cache/output paths."@,
    );
    lemma_hint_if(
        occurs_in(t, "no space left"@) || occurs_in(t, "disk quota"@),
        "Disk capacity or quota issue detected; check dataset/cache/output paths."@,
        x,
    );
    let permission = hint_if(
        occurs_in(t, "permission denied"@),
        "Permission issue detected; check file ownership, execute bits, and policy rules."@,
    );
    lemma_hint_if(
        occurs_in(t, "permission denied"@),
        "Permission issue detected; check file ownership, execute bits, and policy rules."@,
        x,
    );
    let python = hint_if(
        occurs_in(t, "module not found"@) || occurs_in(t, "no module named"@),
        "Python dependency issue detected; verify the active environment on every node."@,
    );
    lemma_hint_if(
        occurs_in(t, "module not found"@) || occurs_in(t, "no module named"@),
        "Python dependency issue detected; verify the active environment on every node."@,
        x,
    );
    let command = hint_if(
        occurs_in(t, "command not found"@) || occurs_in(t, ": not found"@),
        "Command lookup failed; verify PATH and installed binaries on every node."@,
    );
    lemma_hint_if(
        occurs_in(t, "command not found"@) || occurs_in(t, ": not found"@),
        "Command lookup failed; verify PATH and installed binaries on every node."@,
        x,
    );
    let timeout =
        "Runtime timeout killed the job; increase --timeout-seconds or inspect why the task exceeded its limit."@;
    let network = hint_if(
        occurs_in(t, "connection refused"@) || occurs_in(t, "timed out"@),
        "Network connection issue detected; verify ports, hostnames, firewall rules, and rendezvous address."@,
    );
    lemma_hint_if(
        occurs_in(t, "connection refused"@) || occurs_in(t, "timed out"@),
        "Network connection issue detected; verify ports, hostnames, firewall rules, and rendezvous address."@,
        x,
    );
    let end = if occurs_in(t, "task timed out after"@) {
        seq![timeout]
    } else {
        network
    };
    assert(seq![timeout].contains(x) == (x == timeout)) by {
        assert(seq![timeout][0] == timeout);
    }
    lemma_either(oom, nccl, x);
    lemma_either(oom + nccl, disk, x);
    lemma_either(oom + nccl + disk, permission, x);
    lemma_either(oom + nccl + disk + permission, python, x);
    lemma_either(oom + nccl + disk + permission + python, command, x);
    lemma_either(oom + nccl + disk + permission + python + command, end, x);
    assert(pattern_hints(t) == oom + nccl + disk + permission + python + command + end);
}

/// A diagnosis gives the hints of the log text, or the one of the tasks' states.
proof fn lemma_gives(job: JobSummary, logs: Seq<LogLine>, d: JobDiagnosis, hint: Seq<char>)
    requires
        is_diagnosis(job, logs, d),
    ensures
        gives(d, hint) == hints_for(
            log_text(logs),
            failed_count(job.tasks@),
            active_count(job.tasks@),
        ).contains(hint),
{
    let all = hints_for(log_text(logs), failed_count(job.tasks@), active_count(job.tasks@));
    assert(texts(d.hints@).len() == d.hints@.len());
    if gives(d, hint) {
        let i = choose|i: int| 0 <= i < d.hints@.len() && (#[trigger] d.hints@[i])@ == hint;
        assert(texts(d.hints@)[i] == hint);
        assert(all[i] == hint);
    }
    if all.contains(hint) {
        let i = all.index_of(hint);
        assert(texts(d.hints@)[i] == d.hints@[i]@);
    }
}

/// The number of failed tasks, and of those that are queued or running, is above zero exactly
/// where there is one.
proof fn lemma_counts(tasks: Seq<TaskSummary>)
    ensures
        failed_count(tasks) > 0 <==> exists|i: int|
            0 <= i < tasks.len() && (#[trigger] tasks[i]).status@ == "failed"@,
        active_count(tasks) > 0 <==> exists|i: int|
            0 <= i < tasks.len() && ((#[trigger] tasks[i]).status@ == "queued"@
                || tasks[i].status@ == "running"@),
    decreases tasks.len(),
{
    reveal(Seq::filter);
    if tasks.len() > 0 {
        let fewer = tasks.drop_last();
        let last = tasks[tasks.len() - 1];
        lemma_counts(fewer);
        assert(last == tasks.last());
        assert forall|i: int| 0 <= i < fewer.len() implies #[trigger] tasks[i] == fewer[i] by {}
        if failed_count(fewer) > 0 {
            let i = choose|i: int|
                0 <= i < fewer.len() && (#[trigger] fewer[i]).status@ == "failed"@;
            assert(tasks[i].status@ == "failed"@);
        }
        if active_count(fewer) > 0 {
            let i = choose|i: int|
                0 <= i < fewer.len() && ((#[trigger] fewer[i]).status@ == "queued"@
                    || fewer[i].status@ == "running"@);
            assert(tasks[i] == fewer[i]);
        }
    }
}

/// A hint that is not one of the tasks' states is given where the log text gives it.
proof fn lemma_hint_of_log(job: JobSummary, logs: Seq<LogLine>, d: JobDiagnosis, hint: Seq<char>)
    requires
        is_diagnosis(job, logs, d),
        hint != "One or more tasks failed; inspect recent stderr and worker logs for the root cause."@,
        hint != "Job is still running or queued; tail logs and check node liveness before intervening."@,
        hint != "No obvious failure pattern found in recent logs."@,
    ensures
        gives(d, hint) == pattern_hints(log_text(logs)).contains(hint),
{
    lemma_gives(job, logs, d, hint);
    lemma_pattern_hints(log_text(logs), hint);
}

/// Where no line says any of the words that hints go by, the one hint goes by the tasks: whether
/// one has failed, or else whether one is queued or running.
pub proof fn law_hint_without_a_pattern_follows_the_tasks(
    job: JobSummary,
    logs: Seq<LogLine>,
    d: JobDiagnosis,
)
    requires
        is_diagnosis(job, logs, d),
        !logs_say(logs, "out of memory"@),
        !logs_say(logs, "nccl"@),
        !logs_say(logs, "no space left"@),
        !logs_say(logs, "disk quota"@),
        !logs_say(logs, "permission denied"@),
        !logs_say(logs, "module not found"@),
        !logs_say(logs, "no module named"@),
        !logs_say(logs, "command not found"@),
        !logs_say(logs, ": not found"@),
        !logs_say(logs, "task timed out after"@),
        !logs_say(logs, "connection refused"@),
        !logs_say(logs, "timed out"@),
    ensures
        d.hints@.len() == 1,
        has_status(job, "failed"@) ==> d.hints@[0]@
            == "One or more tasks failed; inspect recent stderr and worker logs for the root cause."@,
        !has_status(job, "failed"@) && (has_status(job, "queued"@) || has_status(job, "running"@))
            ==> d.hints@[0]@
            == "Job is still running or queued; tail logs and check node liveness before intervening."@,
        !has_status(job, "failed"@) && !has_status(job, "queued"@) && !has_status(
            job,
            "running"@,
        ) ==> d.hints@[0]@ == "No obvious failure pattern found in recent logs."@,
{
    lemma_patterns_are_plain();
    lemma_long_pattern(log_text(logs));
    lemma_logs_say(logs, "out of memory"@);
    lemma_logs_say(logs, "nccl"@);
    lemma_logs_say(logs, "no space left"@);
    lemma_logs_say(logs, "disk quota"@);
    lemma_logs_say(logs, "permission denied"@);
    lemma_logs_say(logs, "module not found"@);
    lemma_logs_say(logs, "no module named"@);
    lemma_logs_say(logs, "command not found"@);
    lemma_logs_say(logs, ": not found"@);
    lemma_logs_say(logs, "task timed out after"@);
    lemma_logs_say(logs, "connection refused"@);
    lemma_logs_say(logs, "timed out"@);
    let found = pattern_hints(log_text(logs));
    if found.len() > 0 {
        lemma_pattern_hints(log_text(logs), found[0]);
        assert(found.contains(found[0]));
    }
    lemma_counts(job.tasks@);
    let tasks = job.tasks@;
    if has_status(job, "queued"@) {
        let i = choose|i: int| 0 <= i < tasks.len() && (#[trigger] tasks[i]).status@ == "queued"@;
        assert(tasks[i].status@ == "queued"@);
    }
    if has_status(job, "running"@) {
        let i = choose|i: int| 0 <= i < tasks.len() && (#[trigger] tasks[i]).status@ == "running"@;
        assert(tasks[i].status@ == "running"@);
    }
    assert(texts(d.hints@).len() == d.hints@.len());
    assert(d.hints@[0]@ == texts(d.hints@)[0]);
}

/// A line counts as an error exactly if it does not come from standard output or says one of the
/// words for errors, in capitals or not.
pub proof fn law_error_lines(line: LogLine)
    ensures
        is_error_line(line) <==> {
            ||| line.stream != LogStream::Stdout
            ||| says(line.line@, "error"@)
            ||| says(line.line@, "exception"@)
            ||| says(line.line@, "traceback"@)
            ||| says(line.line@, "failed"@)
            ||| says(line.line@, "killed"@)
            ||| says(line.line@, "out of memory"@)
            ||| says(line.line@, "no space left"@)
            ||| says(line.line@, "permission denied"@)
            ||| says(line.line@, "module not found"@)
            ||| says(line.line@, "command not found"@)
            ||| says(line.line@, "nccl"@)
            ||| says(line.line@, "cuda"@)
        },
{
    lemma_patterns_are_plain();
    lemma_says(line.line@, "error"@);
    lemma_says(line.line@, "exception"@);
    lemma_says(line.line@, "traceback"@);
    lemma_says(line.line@, "failed"@);
    lemma_says(line.line@, "killed"@);
    lemma_says(line.line@, "out of memory"@);
    lemma_says(line.line@, "no space left"@);
    lemma_says(line.line@, "permission denied"@);
    lemma_says(line.line@, "module not found"@);
    lemma_says(line.line@, "command not found"@);
    lemma_says(line.line@, "nccl"@);
    lemma_says(line.line@, "cuda"@);
}

/// A line that is added to a log is added to the recent errors if it is one, and then takes the
/// place of the oldest where there are twenty already; it leaves them as they are if it is none.
/// A log without lines has no errors.
pub proof fn law_recent_errors_take_a_line_in(
    job: JobSummary,
    logs: Seq<LogLine>,
    line: LogLine,
    before: JobDiagnosis,
    after: JobDiagnosis,
)
    requires
        is_diagnosis(job, logs, before),
        is_diagnosis(job, logs.push(line), after),
    ensures
        logs.len() == 0 ==> before.recent_errors@.len() == 0,
        !is_error_line(line) ==> after.recent_errors@ == before.recent_errors@,
        is_error_line(line) && before.recent_errors@.len() < 20 ==> after.recent_errors@
            == before.recent_errors@.push(line),
        is_error_line(line) && before.recent_errors@.len() >= 20 ==> after.recent_errors@
            == before.recent_errors@.drop_first().push(line),
        before.recent_errors@.len() <= 20,
{
    reveal(Seq::filter);
    assert(logs.push(line).drop_last() =~= logs);
    let old_errors = error_lines(logs);
    let new_errors = error_lines(logs.push(line));
    if is_error_line(line) {
        assert(new_errors =~= old_errors.push(line));
    }
}

/// The number of tasks with a status.
pub open spec fn count_of(tasks: Seq<TaskSummary>, status: Seq<char>) -> nat
    decreases tasks.len(),
{
    if tasks.len() == 0 {
        0
    } else if tasks.last().status@ == status {
        count_of(tasks.drop_last(), status) + 1
    } else {
        count_of(tasks.drop_last(), status)
    }
}

/// The numbers of failed and of active tasks are those of the tasks with these statuses.
proof fn lemma_counted(tasks: Seq<TaskSummary>)
    ensures
        failed_count(tasks) == count_of(tasks, "failed"@),
        active_count(tasks) == count_of(tasks, "queued"@) + count_of(tasks, "running"@),
    decreases tasks.len(),
{
    reveal(Seq::filter);
    reveal_strlit("queued");
    reveal_strlit("running");
    assert("queued"@.len() != "running"@.len());
    if tasks.len() > 0 {
        lemma_counted(tasks.drop_last());
    }
}

/// The summary of a diagnosis names the job, how it stands, and how many tasks are concerned.
pub proof fn law_diagnosis_sums_up_the_tasks(job: JobSummary, logs: Seq<LogLine>, d: JobDiagnosis)
    requires
        is_diagnosis(job, logs, d),
    ensures
        ({
            let failed = count_of(job.tasks@, "failed"@);
            let active = count_of(job.tasks@, "queued"@) + count_of(job.tasks@, "running"@);
            let total = decimal_text(job.tasks@.len());
            let name = "job "@ + job.job_id@;
            &&& d.job_id == job.job_id
            &&& d.status == job.status
            &&& d.tasks == job.tasks
            &&& job.status@ == "succeeded"@ ==> d.summary@ == name + " succeeded across "@ + total
                + " task(s)"@
            &&& job.status@ != "succeeded"@ && active > 0 ==> d.summary@ == name + " is "@
                + job.status@ + " with "@ + decimal_text(active) + " running/queued task(s)"@
            &&& job.status@ != "succeeded"@ && active == 0 && failed > 0 ==> d.summary@ == name
                + " failed with "@ + decimal_text(failed) + " failed task(s) out of "@ + total
            &&& job.status@ != "succeeded"@ && active == 0 && failed == 0 ==> d.summary@ == name
                + " status is "@ + job.status@
        }),
{
    lemma_counted(job.tasks@);
}

} // verus!
