//! What the rows of a store say of jobs and their tasks.
use vstd::prelude::*;

use crate::diagnosis::{is_active, task_active};
use crate::ids::{is_fresh_id, JobId, TaskId};
use crate::jobstore::{
    law_end_is_kept, time_of, SqliteJobStore, StoreView, TaskRow, TaskRowView,
};
use crate::protocol::{JobSummary, TaskExited, TaskSummary};
use crate::text::{
    comes_before, lemma_before_irreflexive, lemma_before_total, lemma_before_transitive, same,
    text_before,
};
use crate::time::{parse_optional_datetime, parsed_text, Timestamp};

verus! {

/// The first text that is there, or else the empty text.
pub open spec fn first_text(
    a: Option<Seq<char>>,
    b: Option<Seq<char>>,
    c: Option<Seq<char>>,
) -> Seq<char> {
    if a is Some {
        a->0
    } else if b is Some {
        b->0
    } else if c is Some {
        c->0
    } else {
        Seq::empty()
    }
}

impl TaskRowView {
    /// What orders the tasks of a job: when the task came up.
    pub open spec fn first_time(self) -> Seq<char> {
        first_text(self.created_at, self.started_at, self.exited_at)
    }

    /// What orders jobs: the last that happened to the task.
    pub open spec fn last_time(self) -> Seq<char> {
        first_text(self.exited_at, self.started_at, self.created_at)
    }

    /// Whether a summary says what the row of the task says.
    pub open spec fn summed_up(self, task_id: Seq<char>, s: TaskSummary) -> bool {
        &&& s.job_id@ == self.job_id
        &&& s.task_id@ == task_id
        &&& s.node_id@ == self.node_id
        &&& s.status@ == self.status
        &&& s.created_at == time_of(self.created_at)
        &&& s.started_at == time_of(self.started_at)
        &&& s.exited_at == time_of(self.exited_at)
        &&& s.exit_code == self.exit_code
    }
}

impl StoreView {
    /// Whether a task is kept and belongs to a job.
    pub open spec fn has_task(self, job_id: Seq<char>, task_id: Seq<char>) -> bool {
        self.tasks.contains_key(task_id) && self.tasks[task_id].job_id == job_id
    }

    /// Whether a task of a job is kept.
    pub open spec fn has_job(self, job_id: Seq<char>) -> bool {
        exists|task_id: Seq<char>| self.has_task(job_id, task_id)
    }

    /// Whether one task stands before another in the list of a job's tasks: by the time it came
    /// up, then by its identifier.
    pub open spec fn listed_before(self, a: Seq<char>, b: Seq<char>) -> bool {
        row_before(self.tasks[a].first_time(), a, self.tasks[b].first_time(), b)
    }

    /// Whether a list sums up the tasks of a job, each once and in order.
    pub open spec fn lists_tasks(self, job_id: Seq<char>, list: Seq<TaskSummary>) -> bool {
        &&& forall|i: int|
            0 <= i < list.len() ==> self.has_task(job_id, (#[trigger] list[i]).task_id@)
                && self.tasks[list[i].task_id@].summed_up(list[i].task_id@, list[i])
        &&& forall|i: int, j: int|
            0 <= i < j < list.len() ==> self.listed_before(
                (#[trigger] list[i]).task_id@,
                (#[trigger] list[j]).task_id@,
            )
        &&& forall|task_id: Seq<char>| #[trigger]
            self.has_task(job_id, task_id) ==> names_task(list, task_id)
    }

    /// Whether a summary is that of a job.
    pub open spec fn sums_up_job(self, job_id: Seq<char>, s: JobSummary) -> bool {
        s.job_id@ == job_id && self.lists_tasks(job_id, s.tasks@) && is_summary(s)
    }
}

/// Whether a list holds the summary of a task.
pub open spec fn names_task(list: Seq<TaskSummary>, task_id: Seq<char>) -> bool {
    exists|i: int| 0 <= i < list.len() && (#[trigger] list[i]).task_id@ == task_id
}

/// The order of a row with time `a` and identifier `id_a` before one with `b` and `id_b`.
pub open spec fn row_before(a: Seq<char>, id_a: Seq<char>, b: Seq<char>, id_b: Seq<char>) -> bool {
    text_before(a, b) || (a == b && text_before(id_a, id_b))
}

/// Whether a task was created at `t`.
pub open spec fn created_then(task: TaskSummary, t: Timestamp) -> bool {
    task.created_at == Some(t)
}

/// Whether something happened to a task at `t`.
pub open spec fn touched_then(task: TaskSummary, t: Timestamp) -> bool {
    task.created_at == Some(t) || task.started_at == Some(t) || task.exited_at == Some(t)
}

/// Whether `r` is the first time that a task was created, if any was.
pub open spec fn is_creation(tasks: Seq<TaskSummary>, r: Option<Timestamp>) -> bool {
    match r {
        Some(t) => {
            &&& exists|i: int| 0 <= i < tasks.len() && created_then(#[trigger] tasks[i], t)
            &&& forall|i: int, u: Timestamp|
                0 <= i < tasks.len() && #[trigger] created_then(tasks[i], u) ==> !u.before(t)
        },
        None => forall|i: int| 0 <= i < tasks.len() ==> (#[trigger] tasks[i]).created_at is None,
    }
}

/// Whether `r` is the last time that something happened to a task, if anything did.
pub open spec fn is_update(tasks: Seq<TaskSummary>, r: Option<Timestamp>) -> bool {
    match r {
        Some(t) => {
            &&& exists|i: int| 0 <= i < tasks.len() && touched_then(#[trigger] tasks[i], t)
            &&& forall|i: int, u: Timestamp|
                0 <= i < tasks.len() && #[trigger] touched_then(tasks[i], u) ==> !t.before(u)
        },
        None => forall|i: int, u: Timestamp|
            0 <= i < tasks.len() ==> !#[trigger] touched_then(tasks[i], u),
    }
}

/// The status of a job: running while a task is queued or running, then succeeded if every task
/// has, else failed.
pub open spec fn job_status(tasks: Seq<TaskSummary>) -> Seq<char> {
    if exists|i: int| 0 <= i < tasks.len() && is_active(#[trigger] tasks[i]) {
        "running"@
    } else if forall|i: int|
        0 <= i < tasks.len() ==> (#[trigger] tasks[i]).status@ == "succeeded"@ {
        "succeeded"@
    } else {
        "failed"@
    }
}

/// Whether a summary says of its own tasks what they come to.
pub open spec fn is_summary(s: JobSummary) -> bool {
    &&& s.status@ == job_status(s.tasks@)
    &&& is_creation(s.tasks@, s.created_at)
    &&& is_update(s.tasks@, s.updated_at)
}

/// The earlier of two points in time, where there are any.
fn earlier(a: Option<Timestamp>, b: Option<Timestamp>) -> (r: Option<Timestamp>)
    ensures
        r is None <==> a is None && b is None,
        r == a || r == b,
        a matches Some(t) ==> !t.before(r->0),
        b matches Some(t) ==> !t.before(r->0),
{
    match a {
        None => b,
        Some(t) => match b {
            None => a,
            Some(u) => if u.is_before(&t) {
                b
            } else {
                a
            },
        },
    }
}

/// The later of two points in time, where there are any.
fn later(a: Option<Timestamp>, b: Option<Timestamp>) -> (r: Option<Timestamp>)
    ensures
        r is None <==> a is None && b is None,
        r == a || r == b,
        a matches Some(t) ==> !(r->0).before(t),
        b matches Some(t) ==> !(r->0).before(t),
{
    match a {
        None => b,
        Some(t) => match b {
            None => a,
            Some(u) => if t.is_before(&u) {
                b
            } else {
                a
            },
        },
    }
}

/// The first time that one of the tasks was created.
fn creation(tasks: &Vec<TaskSummary>) -> (r: Option<Timestamp>)
    ensures
        is_creation(tasks@, r),
{
    let mut r: Option<Timestamp> = None;
    for i in 0..tasks.len()
        invariant
            is_creation(tasks@.take(i as int), r),
    {
        let ghost before = tasks@.take(i as int);
        let ghost next = tasks@.take(i + 1);
        let task = &tasks[i];
        let ghost old_r = r;
        r = earlier(r, task.created_at);
        proof {
            assert(next[i as int] == *task);
            assert forall|k: int| 0 <= k < i implies next[k] == #[trigger] before[k] by {}
            if let Some(t) = r {
                if r != task.created_at {
                    let k = choose|k: int| 0 <= k < before.len() && created_then(before[k], t);
                    assert(created_then(next[k], t));
                } else {
                    assert(created_then(next[i as int], t));
                }
                assert forall|k: int, u: Timestamp|
                    0 <= k < next.len() && #[trigger] created_then(next[k], u) implies !u.before(t) by {
                    if k < i {
                        assert(created_then(before[k], u));
                    }
                }
            }
        }
    }
    proof {
        assert(tasks@.take(tasks.len() as int) =~= tasks@);
    }
    r
}

/// The last time that something happened to one of the tasks.
fn update(tasks: &Vec<TaskSummary>) -> (r: Option<Timestamp>)
    ensures
        is_update(tasks@, r),
{
    let mut r: Option<Timestamp> = None;
    for i in 0..tasks.len()
        invariant
            is_update(tasks@.take(i as int), r),
    {
        let ghost before = tasks@.take(i as int);
        let ghost next = tasks@.take(i + 1);
        let ghost old_r = r;
        let task = &tasks[i];
        let own = later(later(task.exited_at, task.started_at), task.created_at);
        r = later(r, own);
        proof {
            assert(next[i as int] == *task);
            assert forall|k: int| 0 <= k < i implies next[k] == #[trigger] before[k] by {}
            assert forall|k: int, u: Timestamp|
                0 <= k < next.len() && #[trigger] touched_then(next[k], u) implies r matches Some(t)
                && !t.before(u) by {
                if k < i {
                    assert(touched_then(before[k], u));
                }
            }
            if let Some(t) = r {
                if r == old_r {
                    let k = choose|k: int| 0 <= k < before.len() && touched_then(before[k], t);
                    assert(touched_then(next[k], t));
                } else {
                    assert(touched_then(next[i as int], t));
                }
            }
        }
    }
    proof {
        assert(tasks@.take(tasks.len() as int) =~= tasks@);
    }
    r
}

/// The status of a job with these tasks.
fn status_of(tasks: &Vec<TaskSummary>) -> (r: String)
    ensures
        r@ == job_status(tasks@),
{
    let mut all_succeeded = true;
    for i in 0..tasks.len()
        invariant
            forall|k: int| 0 <= k < i ==> !is_active(#[trigger] tasks@[k]),
            all_succeeded <==> (forall|k: int|
                0 <= k < i ==> (#[trigger] tasks@[k]).status@ == "succeeded"@),
    {
        if task_active(&tasks[i]) {
            proof {
                assert(is_active(tasks@[i as int]));
            }
            return "running".to_owned();
        }
        if !same(tasks[i].status.as_str(), "succeeded") {
            all_succeeded = false;
        }
    }
    if all_succeeded {
        "succeeded".to_owned()
    } else {
        "failed".to_owned()
    }
}

/// What a job with these tasks has come to. Without tasks there is no job: the summary then
/// carries a fresh identifier.
pub fn job_summary(tasks: Vec<TaskSummary>) -> (r: JobSummary)
    ensures
        r.tasks == tasks,
        is_summary(r),
        tasks@.len() > 0 ==> r.job_id == tasks@[0].job_id,
        tasks@.len() == 0 ==> is_fresh_id(r.job_id@, "job"@),
{
    let job_id = if tasks.len() > 0 {
        tasks[0].job_id.clone()
    } else {
        JobId::new()
    };
    let created_at = creation(&tasks);
    let updated_at = update(&tasks);
    let status = status_of(&tasks);
    JobSummary { job_id, status, created_at, updated_at, tasks }
}

/// What comes before a row comes before all that the row comes before.
proof fn lemma_row_before_transitive(
    a: Seq<char>,
    id_a: Seq<char>,
    b: Seq<char>,
    id_b: Seq<char>,
    c: Seq<char>,
    id_c: Seq<char>,
)
    requires
        row_before(a, id_a, b, id_b),
        row_before(b, id_b, c, id_c),
    ensures
        row_before(a, id_a, c, id_c),
{
    if text_before(a, b) && text_before(b, c) {
        lemma_before_transitive(a, b, c);
    }
    if text_before(id_a, id_b) && text_before(id_b, id_c) {
        lemma_before_transitive(id_a, id_b, id_c);
    }
}

/// Of two rows with different identifiers, one comes before the other, and not both.
proof fn lemma_row_before_total(a: Seq<char>, id_a: Seq<char>, b: Seq<char>, id_b: Seq<char>)
    ensures
        id_a == id_b || row_before(a, id_a, b, id_b) || row_before(b, id_b, a, id_a),
        !(row_before(a, id_a, b, id_b) && row_before(b, id_b, a, id_a)),
{
    lemma_before_total(a, b);
    lemma_before_irreflexive(a);
    lemma_before_total(id_a, id_b);
}

impl TaskRow {
    /// What orders the tasks of a job: when the task came up.
    fn first_time(&self) -> (r: &str)
        ensures
            r@ == self@.first_time(),
    {
        proof {
            reveal_strlit("");
            assert(""@ =~= Seq::<char>::empty());
        }
        match &self.created_at {
            Some(t) => t.as_str(),
            None => match &self.started_at {
                Some(t) => t.as_str(),
                None => match &self.exited_at {
                    Some(t) => t.as_str(),
                    None => "",
                },
            },
        }
    }

    /// What orders jobs: the last that happened to the task.
    fn last_time(&self) -> (r: &str)
        ensures
            r@ == self@.last_time(),
    {
        proof {
            reveal_strlit("");
            assert(""@ =~= Seq::<char>::empty());
        }
        match &self.exited_at {
            Some(t) => t.as_str(),
            None => match &self.started_at {
                Some(t) => t.as_str(),
                None => match &self.created_at {
                    Some(t) => t.as_str(),
                    None => "",
                },
            },
        }
    }

    /// The summary of the task with this row.
    fn summary(&self, task_id: &String) -> (r: TaskSummary)
        ensures
            self@.summed_up(task_id@, r),
    {
        TaskSummary {
            job_id: self.job_id.clone(),
            task_id: TaskId(task_id.clone()),
            node_id: self.node_id.clone(),
            status: self.status.clone(),
            created_at: parse_optional_datetime(self.created_at.as_ref()),
            started_at: parse_optional_datetime(self.started_at.as_ref()),
            exited_at: parse_optional_datetime(self.exited_at.as_ref()),
            exit_code: self.exit_code,
        }
    }
}

impl SqliteJobStore {
    /// The identifier of the task at a position.
    spec fn id_at(self, i: int) -> Seq<char> {
        self.tasks.keys()[i]
    }

    /// Whether positions of tasks of a job are in the order of the job's list.
    spec fn in_order(self, job_id: Seq<char>, order: Seq<usize>) -> bool {
        &&& forall|q: int|
            0 <= q < order.len() ==> (#[trigger] order[q]) < self.tasks.keys().len()
                && self@.has_task(job_id, self.id_at(order[q] as int))
        &&& forall|p: int, q: int|
            0 <= p < q < order.len() ==> self@.listed_before(
                self.id_at(#[trigger] order[p] as int),
                self.id_at(#[trigger] order[q] as int),
            )
    }

    /// Whether the task at position `i` stands before the one at position `j` in its job's list.
    fn precedes(&self, i: usize, j: usize) -> (r: bool)
        requires
            i < self.tasks.keys().len(),
            j < self.tasks.keys().len(),
        ensures
            r == self@.listed_before(self.id_at(i as int), self.id_at(j as int)),
    {
        let a = self.tasks.value_at(i);
        let b = self.tasks.value_at(j);
        let time_a = a.first_time();
        let time_b = b.first_time();
        comes_before(time_a, time_b) || (same(time_a, time_b) && comes_before(
            self.tasks.key_at(i).as_str(),
            self.tasks.key_at(j).as_str(),
        ))
    }

    /// The place of the task at position `i` among positions that are in order.
    fn place(&self, job_id: &JobId, order: &Vec<usize>, i: usize) -> (p: usize)
        requires
            i < self.tasks.keys().len(),
            self@.has_task(job_id@, self.id_at(i as int)),
            self.in_order(job_id@, order@),
            forall|q: int| 0 <= q < order.len() ==> (#[trigger] order[q]) < i,
        ensures
            p <= order.len(),
            self.in_order(job_id@, order@.insert(p as int, i)),
    {
        let n = self.tasks.len();
        let mut p: usize = 0;
        while p < order.len() && !self.precedes(i, order[p])
            invariant
                p <= order.len(),
                i < self.tasks.keys().len(),
                self.tasks.keys().no_duplicates(),
                self.in_order(job_id@, order@),
                forall|q: int| 0 <= q < order.len() ==> (#[trigger] order[q]) < i,
                forall|q: int|
                    0 <= q < p ==> self@.listed_before(
                        self.id_at(#[trigger] order[q] as int),
                        self.id_at(i as int),
                    ),
            decreases order.len() - p,
        {
            proof {
                let j = order[p as int] as int;
                lemma_row_before_total(
                    self@.tasks[self.id_at(i as int)].first_time(),
                    self.id_at(i as int),
                    self@.tasks[self.id_at(j)].first_time(),
                    self.id_at(j),
                );
                assert(self.id_at(i as int) != self.id_at(j));
            }
            p += 1;
        }
        proof {
            let next = order@.insert(p as int, i);
            assert forall|q: int| p <= q < order.len() implies self@.listed_before(
                self.id_at(i as int),
                self.id_at(#[trigger] order[q] as int),
            ) by {
                if p < q {
                    let b = self.id_at(order[p as int] as int);
                    let c = self.id_at(order[q] as int);
                    let a = self.id_at(i as int);
                    lemma_row_before_transitive(
                        self@.tasks[a].first_time(),
                        a,
                        self@.tasks[b].first_time(),
                        b,
                        self@.tasks[c].first_time(),
                        c,
                    );
                }
            }
            assert forall|q: int| 0 <= q < next.len() implies (#[trigger] next[q])
                < self.tasks.keys().len() && self@.has_task(job_id@, self.id_at(next[q] as int)) by {
                if q < p {
                    assert(next[q] == order[q]);
                } else if q > p {
                    assert(next[q] == order[q - 1]);
                }
            }
            assert forall|a: int, b: int| 0 <= a < b < next.len() implies self@.listed_before(
                self.id_at(#[trigger] next[a] as int),
                self.id_at(#[trigger] next[b] as int),
            ) by {
                let x = if a < p { order[a] } else if a == p { i } else { order[a - 1] };
                let y = if b < p { order[b] } else if b == p { i } else { order[b - 1] };
                assert(next[a] == x && next[b] == y);
            }
        }
        p
    }

    /// The positions of the tasks of a job, in the order of the job's list.
    fn task_order(&self, job_id: &JobId) -> (order: Vec<usize>)
        ensures
            self.in_order(job_id@, order@),
            forall|k: usize|
                #![trigger self.id_at(k as int)]
                k < self.tasks.keys().len() && self@.has_task(job_id@, self.id_at(k as int))
                    ==> order@.contains(k),
    {
        let n = self.tasks.len();
        let mut order: Vec<usize> = Vec::new();
        for i in 0..n
            invariant
                n == self.tasks.keys().len(),
                self.in_order(job_id@, order@),
                forall|q: int| 0 <= q < order.len() ==> (#[trigger] order[q]) < i,
                forall|k: usize|
                    #![trigger self.id_at(k as int)]
                    k < i && self@.has_task(job_id@, self.id_at(k as int)) ==> order@.contains(k),
        {
            let row = self.tasks.value_at(i);
            proof {
                assert(self@.tasks.contains_key(self.id_at(i as int)));
                assert(self@.tasks[self.id_at(i as int)] == row@);
            }
            if row.job_id.is(job_id) {
                let p = self.place(job_id, &order, i);
                let ghost before = order@;
                order.insert(p, i);
                proof {
                    assert(order@[p as int] == i);
                    assert forall|k: usize|
                        #![trigger self.id_at(k as int)]
                        k <= i && self@.has_task(
                            job_id@,
                            self.id_at(k as int),
                        ) implies order@.contains(k) by {
                        if k < i {
                            let q = choose|q: int| 0 <= q < before.len() && before[q] == k;
                            assert(order@[if q < p { q } else { q + 1 }] == k);
                        }
                    }
                    assert forall|q: int| 0 <= q < order.len() implies (#[trigger] order[q]) <= i by {
                        if q < p {
                            assert(order[q] == before[q]);
                        } else if q > p {
                            assert(order[q] == before[q - 1]);
                        }
                    }
                }
            }
        }
        order
    }

    /// The tasks of a job.
    pub fn list_tasks_for_job(&self, job_id: &JobId) -> (r: Vec<TaskSummary>)
        ensures
            self@.lists_tasks(job_id@, r@),
    {
        let order = self.task_order(job_id);
        let mut r: Vec<TaskSummary> = Vec::new();
        for p in 0..order.len()
            invariant
                self.in_order(job_id@, order@),
                r.len() == p,
                forall|q: int|
                    0 <= q < p ==> (#[trigger] r@[q]).task_id@ == self.id_at(order@[q] as int)
                        && self@.tasks[r@[q].task_id@].summed_up(r@[q].task_id@, r@[q]),
        {
            let i = order[p];
            let row = self.tasks.value_at(i);
            r.push(row.summary(self.tasks.key_at(i)));
        }
        let n = self.tasks.len();
        proof {
            assert forall|i: int| 0 <= i < r@.len() implies self@.has_task(
                job_id@,
                (#[trigger] r@[i]).task_id@,
            ) by {
                assert(order@[i] < n);
            }
            assert forall|i: int, j: int| 0 <= i < j < r@.len() implies self@.listed_before(
                (#[trigger] r@[i]).task_id@,
                (#[trigger] r@[j]).task_id@,
            ) by {
                assert(order@[i] < n && order@[j] < n);
            }
            assert forall|task_id: Seq<char>| #[trigger]
                self@.has_task(job_id@, task_id) implies names_task(r@, task_id) by {
                let k = self.tasks.keys().index_of(task_id);
                assert(self.tasks.keys().contains(task_id));
                assert(self.id_at((k as usize) as int) == task_id);
                let q = choose|q: int| 0 <= q < order.len() && order@[q] == k as usize;
                assert(r@[q].task_id@ == task_id);
            }
        }
        r
    }

    /// What a job has come to, if a task of it is kept.
    pub fn get_job(&self, job_id: &JobId) -> (r: Option<JobSummary>)
        ensures
            r is Some <==> self@.has_job(job_id@),
            r matches Some(s) ==> self@.sums_up_job(job_id@, s),
    {
        let tasks = self.list_tasks_for_job(job_id);
        if tasks.len() == 0 {
            proof {
                if self@.has_job(job_id@) {
                    let id = choose|task_id: Seq<char>| self@.has_task(job_id@, task_id);
                    assert(names_task(tasks@, id));
                }
            }
            None
        } else {
            proof {
                assert(self@.has_task(job_id@, tasks@[0].task_id@));
            }
            Some(job_summary(tasks))
        }
    }
}

impl StoreView {
    /// Whether `at` is the last time that something happened to a task of a job.
    pub open spec fn is_last_time(self, job_id: Seq<char>, at: Seq<char>) -> bool {
        &&& exists|id: Seq<char>| #[trigger]
            self.has_task(job_id, id) && self.tasks[id].last_time() == at
        &&& forall|id: Seq<char>| #[trigger]
            self.has_task(job_id, id) ==> !text_before(at, self.tasks[id].last_time())
    }

    /// The last time that something happened to a task of a job.
    pub open spec fn last_time(self, job_id: Seq<char>) -> Seq<char> {
        choose|at: Seq<char>| self.is_last_time(job_id, at)
    }

    /// Whether nothing happened to job `b` after the last that happened to job `a`.
    pub open spec fn at_least_as_late(self, a: Seq<char>, b: Seq<char>) -> bool {
        !text_before(self.last_time(a), self.last_time(b))
    }

    /// Whether a list sums up the latest jobs, at most `limit` of them and the latest first.
    /// Which of two jobs with the same last time comes first is left open.
    pub open spec fn lists_jobs(self, limit: nat, list: Seq<JobSummary>) -> bool {
        &&& list.len() <= limit
        &&& forall|i: int|
            0 <= i < list.len() ==> self.has_job((#[trigger] list[i]).job_id@) && self.sums_up_job(
                list[i].job_id@,
                list[i],
            )
        &&& forall|i: int, j: int|
            0 <= i < j < list.len() ==> (#[trigger] list[i]).job_id@ != (#[trigger] list[j]).job_id@
                && self.at_least_as_late(list[i].job_id@, list[j].job_id@)
        &&& forall|job_id: Seq<char>| #[trigger]
            self.has_job(job_id) ==> names_job(list, job_id) || (list.len() == limit && (forall|
                i: int,
            |
                0 <= i < list.len() ==> self.at_least_as_late((#[trigger] list[i]).job_id@, job_id)))
    }
}

/// Whether a list holds the summary of a job.
pub open spec fn names_job(list: Seq<JobSummary>, job_id: Seq<char>) -> bool {
    exists|i: int| 0 <= i < list.len() && (#[trigger] list[i]).job_id@ == job_id
}

/// A job has one last time.
proof fn lemma_last_time(store: StoreView, job_id: Seq<char>, at: Seq<char>)
    requires
        store.is_last_time(job_id, at),
    ensures
        store.last_time(job_id) == at,
{
    let other = store.last_time(job_id);
    assert(store.is_last_time(job_id, other));
    lemma_before_total(at, other);
}

/// A job and the last time that something happened to it.
struct JobTime {
    job_id: JobId,
    last_time: String,
}

/// Whether `at` is the last time among the first `n` rows of a job.
spec fn last_of_rows(rows: Seq<TaskRow>, n: int, job_id: Seq<char>, at: Seq<char>) -> bool {
    &&& exists|k: int|
        0 <= k < n && (#[trigger] rows[k]).job_id@ == job_id && rows[k]@.last_time() == at
    &&& forall|k: int|
        0 <= k < n && (#[trigger] rows[k]).job_id@ == job_id ==> !text_before(
            at,
            rows[k]@.last_time(),
        )
}

/// Whether a list holds a job.
spec fn holds_job(jobs: Seq<JobTime>, job_id: Seq<char>) -> bool {
    exists|g: int| 0 <= g < jobs.len() && (#[trigger] jobs[g]).job_id@ == job_id
}

/// Whether a list holds the jobs of the first `n` rows, each once and with its last time.
spec fn groups_rows(rows: Seq<TaskRow>, n: int, jobs: Seq<JobTime>) -> bool {
    &&& forall|g: int|
        0 <= g < jobs.len() ==> last_of_rows(
            rows,
            n,
            (#[trigger] jobs[g]).job_id@,
            jobs[g].last_time@,
        )
    &&& forall|g: int, h: int|
        0 <= g < h < jobs.len() ==> (#[trigger] jobs[g]).job_id@ != (#[trigger] jobs[h]).job_id@
    &&& forall|k: int| 0 <= k < n ==> holds_job(jobs, (#[trigger] rows[k]).job_id@)
}

/// The position of a job in a list.
fn find_job(jobs: &Vec<JobTime>, job_id: &JobId) -> (r: Option<usize>)
    ensures
        match r {
            Some(g) => g < jobs.len() && jobs@[g as int].job_id@ == job_id@,
            None => !holds_job(jobs@, job_id@),
        },
{
    for g in 0..jobs.len()
        invariant
            forall|h: int| 0 <= h < g ==> (#[trigger] jobs@[h]).job_id@ != job_id@,
    {
        if jobs[g].job_id.is(job_id) {
            return Some(g);
        }
    }
    None
}

/// The last time of a job among one more row.
proof fn lemma_last_of_next_row(
    rows: Seq<TaskRow>,
    n: int,
    job_id: Seq<char>,
    at: Seq<char>,
    next: Seq<char>,
)
    requires
        0 <= n < rows.len(),
        last_of_rows(rows, n, job_id, at),
        rows[n].job_id@ != job_id ==> next == at,
        rows[n].job_id@ == job_id ==> next == (if text_before(at, rows[n]@.last_time()) {
            rows[n]@.last_time()
        } else {
            at
        }),
    ensures
        last_of_rows(rows, n + 1, job_id, next),
{
    assert forall|k: int| 0 <= k < n + 1 && (#[trigger] rows[k]).job_id@ == job_id implies !text_before(
        next,
        rows[k]@.last_time(),
    ) by {
        lemma_before_irreflexive(next);
        if k < n && next != at && text_before(next, rows[k]@.last_time()) {
            lemma_before_transitive(at, next, rows[k]@.last_time());
        }
    }
    if next == at {
        let k = choose|k: int|
            0 <= k < n && (#[trigger] rows[k]).job_id@ == job_id && rows[k]@.last_time() == at;
        assert(rows[k].job_id@ == job_id && rows[k]@.last_time() == next);
    } else {
        assert(rows[n].job_id@ == job_id && rows[n]@.last_time() == next);
    }
}

/// Whether positions in a list of jobs are in the order of their last times, the latest first.
spec fn latest_first(jobs: Seq<JobTime>, order: Seq<usize>) -> bool {
    &&& forall|q: int| 0 <= q < order.len() ==> (#[trigger] order[q]) < jobs.len()
    &&& forall|p: int, q: int|
        0 <= p < q < order.len() ==> #[trigger] order[p] != #[trigger] order[q] && !text_before(
            jobs[order[p] as int].last_time@,
            jobs[order[q] as int].last_time@,
        )
}

/// The place of the job at position `i` among positions that are in order.
fn place_job(jobs: &Vec<JobTime>, order: &Vec<usize>, i: usize) -> (p: usize)
    requires
        i < jobs.len(),
        latest_first(jobs@, order@),
        forall|q: int| 0 <= q < order.len() ==> (#[trigger] order[q]) < i,
    ensures
        p <= order.len(),
        latest_first(jobs@, order@.insert(p as int, i)),
{
    let mut p: usize = 0;
    while p < order.len() && !comes_before(
        jobs[order[p]].last_time.as_str(),
        jobs[i].last_time.as_str(),
    )
        invariant
            p <= order.len(),
            i < jobs.len(),
            latest_first(jobs@, order@),
            forall|q: int|
                0 <= q < p ==> !text_before(
                    jobs@[#[trigger] order@[q] as int].last_time@,
                    jobs@[i as int].last_time@,
                ),
        decreases order.len() - p,
    {
        p += 1;
    }
    proof {
        let next = order@.insert(p as int, i);
        let own = jobs@[i as int].last_time@;
        assert forall|q: int| p <= q < order.len() implies !text_before(
            own,
            jobs@[#[trigger] order@[q] as int].last_time@,
        ) by {
            let first = jobs@[order@[p as int] as int].last_time@;
            let other = jobs@[order@[q] as int].last_time@;
            if text_before(own, other) {
                lemma_before_transitive(first, own, other);
                lemma_before_irreflexive(first);
                assert(p < q);
            }
        }
        assert forall|q: int| 0 <= q < next.len() implies (#[trigger] next[q]) < jobs.len() by {
            let x = if q < p { order[q] } else if q == p { i } else { order[q - 1] };
            assert(next[q] == x);
        }
        assert forall|a: int, b: int| 0 <= a < b < next.len() implies #[trigger] next[a]
            != #[trigger] next[b] && !text_before(
            jobs@[next[a] as int].last_time@,
            jobs@[next[b] as int].last_time@,
        ) by {
            let x = if a < p { order[a] } else if a == p { i } else { order[a - 1] };
            let y = if b < p { order[b] } else if b == p { i } else { order[b - 1] };
            assert(next[a] == x && next[b] == y);
        }
    }
    p
}

/// The positions of all jobs of a list, the latest first.
fn job_order(jobs: &Vec<JobTime>) -> (order: Vec<usize>)
    ensures
        latest_first(jobs@, order@),
        forall|k: usize| k < jobs.len() ==> #[trigger] order@.contains(k),
{
    let mut order: Vec<usize> = Vec::new();
    for i in 0..jobs.len()
        invariant
            latest_first(jobs@, order@),
            forall|q: int| 0 <= q < order.len() ==> (#[trigger] order[q]) < i,
            forall|k: usize| k < i ==> #[trigger] order@.contains(k),
    {
        let p = place_job(jobs, &order, i);
        let ghost before = order@;
        order.insert(p, i);
        proof {
            assert(order@[p as int] == i);
            assert forall|k: usize| k <= i implies #[trigger] order@.contains(k) by {
                if k < i {
                    assert(before.contains(k));
                    let q = choose|q: int| 0 <= q < before.len() && before[q] == k;
                    assert(order@[if q < p { q } else { q + 1 }] == k);
                }
            }
            assert forall|q: int| 0 <= q < order.len() implies (#[trigger] order[q]) <= i by {
                if q < p {
                    assert(order[q] == before[q]);
                } else if q > p {
                    assert(order[q] == before[q - 1]);
                }
            }
        }
    }
    order
}

impl SqliteJobStore {
    /// The jobs of all rows, with their last times.
    fn job_times(&self) -> (jobs: Vec<JobTime>)
        ensures
            groups_rows(self.tasks.values(), self.tasks.keys().len() as int, jobs@),
    {
        let n = self.tasks.len();
        let mut jobs: Vec<JobTime> = Vec::new();
        for i in 0..n
            invariant
                n == self.tasks.keys().len(),
                n == self.tasks.values().len(),
                groups_rows(self.tasks.values(), i as int, jobs@),
        {
            let ghost rows = self.tasks.values();
            let ghost before = jobs@;
            let row = self.tasks.value_at(i);
            let last = row.last_time();
            match find_job(&jobs, &row.job_id) {
                Some(g) => {
                    if comes_before(jobs[g].last_time.as_str(), last) {
                        let later = JobTime {
                            job_id: row.job_id.clone(),
                            last_time: last.to_owned(),
                        };
                        jobs.set(g, later);
                    }
                    proof {
                        assert forall|h: int| 0 <= h < jobs.len() implies last_of_rows(
                            rows,
                            i + 1,
                            (#[trigger] jobs@[h]).job_id@,
                            jobs@[h].last_time@,
                        ) by {
                            assert(last_of_rows(
                                rows,
                                i as int,
                                before[h].job_id@,
                                before[h].last_time@,
                            ));
                            lemma_last_of_next_row(
                                rows,
                                i as int,
                                before[h].job_id@,
                                before[h].last_time@,
                                jobs@[h].last_time@,
                            );
                        }
                        assert forall|k: int| 0 <= k < i + 1 implies holds_job(
                            jobs@,
                            (#[trigger] rows[k]).job_id@,
                        ) by {
                            if k < i {
                                let h = choose|h: int|
                                    0 <= h < before.len() && (#[trigger] before[h]).job_id@
                                        == rows[k].job_id@;
                                assert(jobs@[h].job_id@ == rows[k].job_id@);
                            } else {
                                assert(jobs@[g as int].job_id@ == rows[k].job_id@);
                            }
                        }
                    }
                },
                None => {
                    jobs.push(JobTime { job_id: row.job_id.clone(), last_time: last.to_owned() });
                    proof {
                        assert forall|h: int| 0 <= h < jobs.len() implies last_of_rows(
                            rows,
                            i + 1,
                            (#[trigger] jobs@[h]).job_id@,
                            jobs@[h].last_time@,
                        ) by {
                            if h < before.len() {
                                assert(jobs@[h] == before[h]);
                                assert(last_of_rows(
                                    rows,
                                    i as int,
                                    before[h].job_id@,
                                    before[h].last_time@,
                                ));
                                lemma_last_of_next_row(
                                    rows,
                                    i as int,
                                    before[h].job_id@,
                                    before[h].last_time@,
                                    jobs@[h].last_time@,
                                );
                            } else {
                                lemma_before_irreflexive(jobs@[h].last_time@);
                                assert(rows[i as int].job_id@ == jobs@[h].job_id@);
                            }
                        }
                        assert forall|k: int| 0 <= k < i + 1 implies holds_job(
                            jobs@,
                            (#[trigger] rows[k]).job_id@,
                        ) by {
                            if k < i {
                                let h = choose|h: int|
                                    0 <= h < before.len() && (#[trigger] before[h]).job_id@
                                        == rows[k].job_id@;
                                assert(jobs@[h].job_id@ == rows[k].job_id@);
                            } else {
                                assert(jobs@[before.len() as int].job_id@ == rows[k].job_id@);
                            }
                        }
                    }
                },
            }
        }
        jobs
    }

    /// What holds of the rows of a job holds of its tasks.
    proof fn lemma_rows_are_tasks(&self, job_id: Seq<char>, at: Seq<char>)
        requires
            self.tasks.keys().no_duplicates(),
            self.tasks.keys().len() == self.tasks.values().len(),
            last_of_rows(self.tasks.values(), self.tasks.keys().len() as int, job_id, at),
        ensures
            self@.has_job(job_id),
            self@.last_time(job_id) == at,
    {
        let keys = self.tasks.keys();
        let rows = self.tasks.values();
        assert forall|k: int| 0 <= k < keys.len() implies self@.tasks.contains_key(
            #[trigger] keys[k],
        ) && self@.tasks[keys[k]] == rows[k]@ by {
            assert(keys.contains(keys[k]));
            assert(keys.index_of(keys[k]) == k);
        }
        let k = choose|k: int|
            0 <= k < keys.len() && (#[trigger] rows[k]).job_id@ == job_id && rows[k]@.last_time()
                == at;
        assert(self@.has_task(job_id, keys[k]));
        assert forall|id: Seq<char>| #[trigger] self@.has_task(job_id, id) implies !text_before(
            at,
            self@.tasks[id].last_time(),
        ) by {
            let m = keys.index_of(id);
            assert(keys.contains(id));
            assert(keys[m] == id);
            assert(rows[m].job_id@ == job_id);
        }
        assert(self@.is_last_time(job_id, at));
        lemma_last_time(self@, job_id, at);
    }

    /// The latest jobs, at most `limit` of them and the latest first.
    pub fn list_jobs(&self, limit: usize) -> (r: Vec<JobSummary>)
        ensures
            self@.lists_jobs(limit as nat, r@),
    {
        let n = self.tasks.len();
        let jobs = self.job_times();
        let order = job_order(&jobs);
        proof {
            assert forall|g: int| 0 <= g < jobs.len() implies self@.has_job(
                (#[trigger] jobs@[g]).job_id@,
            ) && self@.last_time(jobs@[g].job_id@) == jobs@[g].last_time@ by {
                self.lemma_rows_are_tasks(jobs@[g].job_id@, jobs@[g].last_time@);
            }
        }
        let count = if limit < order.len() {
            limit
        } else {
            order.len()
        };
        let mut r: Vec<JobSummary> = Vec::new();
        for p in 0..count
            invariant
                count <= order.len(),
                latest_first(jobs@, order@),
                forall|g: int|
                    0 <= g < jobs.len() ==> self@.has_job((#[trigger] jobs@[g]).job_id@),
                r.len() == p,
                forall|q: int|
                    0 <= q < p ==> (#[trigger] r@[q]).job_id@ == jobs@[order@[q] as int].job_id@
                        && self@.sums_up_job(r@[q].job_id@, r@[q]),
        {
            let job_id = &jobs[order[p]].job_id;
            proof {
                assert(self@.has_job(job_id@));
            }
            let tasks = self.list_tasks_for_job(job_id);
            proof {
                let id = choose|task_id: Seq<char>| self@.has_task(job_id@, task_id);
                assert(names_task(tasks@, id));
                assert(self@.has_task(job_id@, tasks@[0].task_id@));
            }
            r.push(job_summary(tasks));
        }
        proof {
            assert forall|i: int| 0 <= i < r@.len() implies self@.has_job(
                (#[trigger] r@[i]).job_id@,
            ) by {
                assert(order@[i] < jobs.len());
            }
            assert forall|i: int, j: int| 0 <= i < j < r@.len() implies (#[trigger] r@[i]).job_id@
                != (#[trigger] r@[j]).job_id@ && self@.at_least_as_late(
                r@[i].job_id@,
                r@[j].job_id@,
            ) by {
                assert(order@[i] != order@[j]);
                assert(jobs@[order@[i] as int].job_id@ != jobs@[order@[j] as int].job_id@);
            }
            assert forall|job_id: Seq<char>| #[trigger]
                self@.has_job(job_id) implies names_job(r@, job_id) || (r@.len() == limit && (
            forall|i: int|
                0 <= i < r@.len() ==> self@.at_least_as_late((#[trigger] r@[i]).job_id@, job_id)))
                by {
                let id = choose|task_id: Seq<char>| self@.has_task(job_id, task_id);
                let keys = self.tasks.keys();
                let m = keys.index_of(id);
                assert(keys.contains(id));
                assert(keys[m] == id);
                assert(holds_job(jobs@, self.tasks.values()[m].job_id@));
                let g = choose|g: int| 0 <= g < jobs.len() && (#[trigger] jobs@[g]).job_id@ == job_id;
                assert(order@.contains(g as usize));
                let q = choose|q: int| 0 <= q < order.len() && order@[q] == g as usize;
                if q < count {
                    assert(r@[q].job_id@ == job_id);
                } else {
                    assert forall|i: int| 0 <= i < r@.len() implies self@.at_least_as_late(
                        (#[trigger] r@[i]).job_id@,
                        job_id,
                    ) by {
                        assert(order@[i] != order@[q]);
                    }
                }
            }
        }
        r
    }
}

/// A job is running exactly when a task of it is queued or running, has succeeded exactly when
/// every task has, and has failed otherwise.
pub proof fn law_job_status(tasks: Seq<TaskSummary>)
    ensures
        job_status(tasks) == "running"@ <==> exists|i: int|
            0 <= i < tasks.len() && is_active(#[trigger] tasks[i]),
        job_status(tasks) == "succeeded"@ <==> forall|i: int|
            0 <= i < tasks.len() ==> (#[trigger] tasks[i]).status@ == "succeeded"@,
        job_status(tasks) != "running"@ && job_status(tasks) != "succeeded"@ ==> job_status(tasks)
            == "failed"@,
{
    reveal_strlit("running");
    reveal_strlit("succeeded");
    reveal_strlit("failed");
    reveal_strlit("queued");
    assert("running"@.len() != "succeeded"@.len());
    assert("failed"@.len() != "succeeded"@.len());
    assert("running"@.len() != "failed"@.len());
    assert("queued"@.len() != "succeeded"@.len());
}

/// The list of a job's tasks is determined: two lists name the same tasks in the same order.
pub proof fn law_task_list_is_unique(
    store: StoreView,
    job_id: Seq<char>,
    a: Seq<TaskSummary>,
    b: Seq<TaskSummary>,
    i: int,
)
    requires
        store.lists_tasks(job_id, a),
        store.lists_tasks(job_id, b),
        0 <= i < a.len(),
    ensures
        i < b.len(),
        a[i].task_id@ == b[i].task_id@,
    decreases i,
{
    assert forall|k: int| 0 <= k < i implies k < b.len() && (#[trigger] a[k]).task_id@
        == b[k].task_id@ by {
        law_task_list_is_unique(store, job_id, a, b, k);
    }
    let own = a[i].task_id@;
    assert(store.has_task(job_id, own));
    assert(names_task(b, own));
    let j = choose|j: int| 0 <= j < b.len() && (#[trigger] b[j]).task_id@ == own;
    if j < i {
        assert(a[j].task_id@ == own);
        assert(store.listed_before(a[j].task_id@, a[i].task_id@));
        lemma_row_before_total(
            store.tasks[own].first_time(),
            own,
            store.tasks[own].first_time(),
            own,
        );
    } else if j > i {
        let other = b[i].task_id@;
        assert(store.has_task(job_id, other));
        assert(names_task(a, other));
        let k = choose|k: int| 0 <= k < a.len() && (#[trigger] a[k]).task_id@ == other;
        assert(store.listed_before(b[i].task_id@, b[j].task_id@));
        lemma_row_before_total(
            store.tasks[own].first_time(),
            own,
            store.tasks[other].first_time(),
            other,
        );
        if k < i {
            assert(b[k].task_id@ == other);
            assert(store.listed_before(b[k].task_id@, b[i].task_id@));
            lemma_row_before_total(
                store.tasks[other].first_time(),
                other,
                store.tasks[other].first_time(),
                other,
            );
        } else if k > i {
            assert(store.listed_before(a[i].task_id@, a[k].task_id@));
        }
    }
}

/// Whether a task with a status is kept of a job.
pub open spec fn keeps_status(store: StoreView, job_id: Seq<char>, status: Seq<char>) -> bool {
    exists|task_id: Seq<char>| #[trigger]
        store.tasks.contains_key(task_id) && store.tasks[task_id].job_id == job_id
            && store.tasks[task_id].status == status
}

/// The status of a job goes by what is kept of its tasks: running if one is queued or running,
/// else succeeded if each has, else failed.
pub proof fn law_status_goes_by_the_rows(store: StoreView, job_id: Seq<char>, s: JobSummary)
    requires
        store.sums_up_job(job_id, s),
    ensures
        keeps_status(store, job_id, "queued"@) || keeps_status(store, job_id, "running"@)
            ==> s.status@ == "running"@,
        !keeps_status(store, job_id, "queued"@) && !keeps_status(store, job_id, "running"@) && (
        forall|task_id: Seq<char>| #[trigger]
            store.tasks.contains_key(task_id) && store.tasks[task_id].job_id == job_id
                ==> store.tasks[task_id].status == "succeeded"@) ==> s.status@ == "succeeded"@,
        !keeps_status(store, job_id, "queued"@) && !keeps_status(store, job_id, "running"@) && (
        exists|task_id: Seq<char>| #[trigger]
            store.tasks.contains_key(task_id) && store.tasks[task_id].job_id == job_id
                && store.tasks[task_id].status != "succeeded"@) ==> s.status@ == "failed"@,
{
    let list = s.tasks@;
    assert forall|task_id: Seq<char>| #[trigger]
        store.tasks.contains_key(task_id) && store.tasks[task_id].job_id
            == job_id implies exists|i: int|
        0 <= i < list.len() && (#[trigger] list[i]).status@ == store.tasks[task_id].status by {
        assert(store.has_task(job_id, task_id));
        assert(names_task(list, task_id));
        let i = choose|i: int| 0 <= i < list.len() && (#[trigger] list[i]).task_id@ == task_id;
        assert(list[i].status@ == store.tasks[task_id].status);
    }
    assert forall|i: int| 0 <= i < list.len() implies store.tasks.contains_key(
        (#[trigger] list[i]).task_id@,
    ) && store.tasks[list[i].task_id@].job_id == job_id && store.tasks[list[i].task_id@].status
        == list[i].status@ by {
        assert(store.has_task(job_id, list[i].task_id@));
    }
    if keeps_status(store, job_id, "queued"@) {
        let t = choose|t: Seq<char>| #[trigger]
            store.tasks.contains_key(t) && store.tasks[t].job_id == job_id
                && store.tasks[t].status == "queued"@;
        let i = choose|i: int|
            0 <= i < list.len() && (#[trigger] list[i]).status@ == store.tasks[t].status;
        assert(is_active(list[i]));
    }
    if keeps_status(store, job_id, "running"@) {
        let t = choose|t: Seq<char>| #[trigger]
            store.tasks.contains_key(t) && store.tasks[t].job_id == job_id
                && store.tasks[t].status == "running"@;
        let i = choose|i: int|
            0 <= i < list.len() && (#[trigger] list[i]).status@ == store.tasks[t].status;
        assert(is_active(list[i]));
    }
    if !keeps_status(store, job_id, "queued"@) && !keeps_status(store, job_id, "running"@) {
        assert forall|i: int| 0 <= i < list.len() implies !is_active(#[trigger] list[i]) by {
            assert(store.tasks.contains_key(list[i].task_id@));
        }
        if exists|t: Seq<char>| #[trigger]
            store.tasks.contains_key(t) && store.tasks[t].job_id == job_id
                && store.tasks[t].status != "succeeded"@ {
            let t = choose|t: Seq<char>| #[trigger]
                store.tasks.contains_key(t) && store.tasks[t].job_id == job_id
                    && store.tasks[t].status != "succeeded"@;
            let i = choose|i: int|
                0 <= i < list.len() && (#[trigger] list[i]).status@ == store.tasks[t].status;
            assert(list[i].status@ != "succeeded"@);
        }
    }
}

/// A job one of whose tasks ended without success is not reported as succeeded.
pub proof fn law_failed_end_is_not_reported_as_success(
    store: StoreView,
    event: TaskExited,
    s: JobSummary,
)
    requires
        !event.success,
        store.exited(event).sums_up_job(store.exited(event).tasks[event.task_id@].job_id, s),
    ensures
        s.status@ != "succeeded"@,
        s.status@ == "failed"@ || s.status@ == "running"@,
{
    let after = store.exited(event);
    let job_id = after.tasks[event.task_id@].job_id;
    law_end_is_kept(store, event, event.task_id@);
    law_status_goes_by_the_rows(after, job_id, s);
    reveal_strlit("succeeded");
    reveal_strlit("failed");
    reveal_strlit("running");
    assert("failed"@.len() != "succeeded"@.len());
    assert("running"@.len() != "succeeded"@.len());
    assert(after.tasks.contains_key(event.task_id@));
}

/// The list of a job's tasks holds each task that is kept of the job once, with what is kept of
/// it.
pub proof fn law_job_lists_what_is_kept(store: StoreView, job_id: Seq<char>, s: JobSummary)
    requires
        store.sums_up_job(job_id, s),
    ensures
        s.job_id@ == job_id,
        forall|i: int|
            0 <= i < s.tasks@.len() ==> {
                let task = #[trigger] s.tasks@[i];
                let row = store.tasks[task.task_id@];
                &&& store.tasks.contains_key(task.task_id@)
                &&& row.job_id == job_id
                &&& task.job_id@ == job_id
                &&& task.node_id@ == row.node_id
                &&& task.status@ == row.status
                &&& task.exit_code == row.exit_code
                &&& row.created_at is None ==> task.created_at is None
                &&& row.created_at matches Some(text) ==> task.created_at == parsed_text(text)
                &&& row.started_at is None ==> task.started_at is None
                &&& row.started_at matches Some(text) ==> task.started_at == parsed_text(text)
                &&& row.exited_at is None ==> task.exited_at is None
                &&& row.exited_at matches Some(text) ==> task.exited_at == parsed_text(text)
            },
        forall|i: int, j: int|
            0 <= i < j < s.tasks@.len() ==> (#[trigger] s.tasks@[i]).task_id@ != (
            #[trigger] s.tasks@[j]).task_id@,
        forall|task_id: Seq<char>| #[trigger]
            store.tasks.contains_key(task_id) && store.tasks[task_id].job_id == job_id
                ==> exists|i: int|
                0 <= i < s.tasks@.len() && (#[trigger] s.tasks@[i]).task_id@ == task_id,
{
    let list = s.tasks@;
    assert forall|i: int, j: int| 0 <= i < j < list.len() implies (#[trigger] list[i]).task_id@ != (
    #[trigger] list[j]).task_id@ by {
        assert(store.listed_before(list[i].task_id@, list[j].task_id@));
        lemma_before_irreflexive(store.tasks[list[i].task_id@].first_time());
        lemma_before_irreflexive(list[i].task_id@);
    }
    assert forall|task_id: Seq<char>| #[trigger]
        store.tasks.contains_key(task_id) && store.tasks[task_id].job_id
            == job_id implies exists|i: int|
        0 <= i < list.len() && (#[trigger] list[i]).task_id@ == task_id by {
        assert(store.has_task(job_id, task_id));
        assert(names_task(list, task_id));
    }
}

/// The first of three texts that is there, or else the empty text.
pub open spec fn coalesced(texts: (Option<Seq<char>>, Option<Seq<char>>, Option<Seq<char>>)) -> Seq<
    char,
> {
    match texts {
        (Some(a), _, _) => a,
        (None, Some(b), _) => b,
        (None, None, Some(c)) => c,
        (None, None, None) => Seq::empty(),
    }
}

/// The tasks of a job come in the order of their creation, or else their start, or else their
/// end, and those of the same time in the order of their identifiers.
pub proof fn law_tasks_come_in_order(
    store: StoreView,
    job_id: Seq<char>,
    s: JobSummary,
    i: int,
    j: int,
)
    requires
        store.sums_up_job(job_id, s),
        0 <= i < j < s.tasks@.len(),
    ensures
        ({
            let a = store.tasks[s.tasks@[i].task_id@];
            let b = store.tasks[s.tasks@[j].task_id@];
            let earlier = coalesced((a.created_at, a.started_at, a.exited_at));
            let later = coalesced((b.created_at, b.started_at, b.exited_at));
            text_before(earlier, later) || (earlier == later && text_before(
                s.tasks@[i].task_id@,
                s.tasks@[j].task_id@,
            ))
        }),
{
    assert(store.listed_before(s.tasks@[i].task_id@, s.tasks@[j].task_id@));
}

/// A job was created when the first of its tasks was, and updated when something last happened to
/// one of them.
pub proof fn law_job_spans_its_tasks(
    store: StoreView,
    job_id: Seq<char>,
    s: JobSummary,
    i: int,
    t: Timestamp,
)
    requires
        store.sums_up_job(job_id, s),
        0 <= i < s.tasks@.len(),
    ensures
        s.tasks@[i].created_at == Some(t) ==> s.created_at is Some && !t.before(s.created_at->0),
        s.tasks@[i].created_at == Some(t) || s.tasks@[i].started_at == Some(t)
            || s.tasks@[i].exited_at == Some(t) ==> s.updated_at is Some && !s.updated_at->0.before(
            t,
        ),
        s.created_at matches Some(first) ==> exists|k: int|
            0 <= k < s.tasks@.len() && (#[trigger] s.tasks@[k]).created_at == Some(first),
        s.updated_at matches Some(last) ==> exists|k: int|
            0 <= k < s.tasks@.len() && ((#[trigger] s.tasks@[k]).created_at == Some(last)
                || s.tasks@[k].started_at == Some(last) || s.tasks@[k].exited_at == Some(last)),
{
    let task = s.tasks@[i];
    assert(created_then(task, t) == (task.created_at == Some(t)));
    assert(touched_then(task, t) == (task.created_at == Some(t) || task.started_at == Some(t)
        || task.exited_at == Some(t)));
    if s.created_at is Some {
        let k = choose|k: int|
            0 <= k < s.tasks@.len() && created_then(#[trigger] s.tasks@[k], s.created_at->0);
        assert(s.tasks@[k].created_at == s.created_at);
    }
    if s.updated_at is Some {
        let k = choose|k: int|
            0 <= k < s.tasks@.len() && touched_then(#[trigger] s.tasks@[k], s.updated_at->0);
        assert(touched_then(s.tasks@[k], s.updated_at->0));
    }
}

/// The last that is known to have happened to a task: its end, or else its start, or else its
/// creation.
pub open spec fn latest_of(row: TaskRowView) -> Seq<char> {
    coalesced((row.exited_at, row.started_at, row.created_at))
}

/// Whether something happened to a job at least as late as all that happened to another.
pub open spec fn is_as_late(store: StoreView, a: Seq<char>, b: Seq<char>) -> bool {
    exists|x: Seq<char>|
        {
            &&& #[trigger] store.tasks.contains_key(x)
            &&& store.tasks[x].job_id == a
            &&& forall|y: Seq<char>| #[trigger]
                store.tasks.contains_key(y) && store.tasks[y].job_id == b ==> !text_before(
                    latest_of(store.tasks[x]),
                    latest_of(store.tasks[y]),
                )
        }
}

/// The list of jobs holds jobs of which a task is kept, each once, no more than are asked for and
/// the latest first. A job is left out only where the list is full of jobs that are as late.
pub proof fn law_latest_jobs_are_listed(
    store: StoreView,
    limit: nat,
    list: Seq<JobSummary>,
    i: int,
    j: int,
    task_id: Seq<char>,
)
    requires
        store.tasks.dom().finite(),
        store.lists_jobs(limit, list),
        0 <= i < list.len(),
    ensures
        list.len() <= limit,
        store.sums_up_job(list[i].job_id@, list[i]),
        list[i].tasks@.len() > 0,
        i < j < list.len() ==> list[i].job_id@ != list[j].job_id@ && is_as_late(
            store,
            list[i].job_id@,
            list[j].job_id@,
        ),
        store.tasks.contains_key(task_id) ==> (exists|k: int|
            0 <= k < list.len() && (#[trigger] list[k]).job_id@ == store.tasks[task_id].job_id) || (
        list.len() == limit && is_as_late(store, list[i].job_id@, store.tasks[task_id].job_id)),
{
    let own = list[i].job_id@;
    assert(store.has_job(own));
    let known = choose|known: Seq<char>| store.has_task(own, known);
    assert(names_task(list[i].tasks@, known));
    if i < j < list.len() {
        assert(store.at_least_as_late(own, list[j].job_id@));
        lemma_as_late(store, own, list[j].job_id@);
    }
    if store.tasks.contains_key(task_id) {
        let job_id = store.tasks[task_id].job_id;
        assert(store.has_task(job_id, task_id));
        assert(store.has_job(job_id));
        if names_job(list, job_id) {
            let k = choose|k: int| 0 <= k < list.len() && (#[trigger] list[k]).job_id@ == job_id;
            assert(list[k].job_id@ == job_id);
        } else {
            assert(store.at_least_as_late(own, job_id));
            lemma_as_late(store, own, job_id);
        }
    }
}

/// Where nothing is kept no job is listed; where anything is, one is, if any is asked for.
pub proof fn law_kept_jobs_are_listed(
    store: StoreView,
    limit: nat,
    list: Seq<JobSummary>,
    task_id: Seq<char>,
)
    requires
        store.lists_jobs(limit, list),
        limit > 0,
    ensures
        store.tasks.contains_key(task_id) ==> list.len() > 0,
        list.len() < limit && store.tasks.contains_key(task_id) ==> exists|k: int|
            0 <= k < list.len() && (#[trigger] list[k]).job_id@ == store.tasks[task_id].job_id,
{
    if store.tasks.contains_key(task_id) {
        let job_id = store.tasks[task_id].job_id;
        assert(store.has_task(job_id, task_id));
        assert(store.has_job(job_id));
        if names_job(list, job_id) {
            let k = choose|k: int| 0 <= k < list.len() && (#[trigger] list[k]).job_id@ == job_id;
            assert(list[k].job_id@ == job_id);
        }
    }
}

/// A job whose last time is not before that of another is as late.
proof fn lemma_as_late(store: StoreView, a: Seq<char>, b: Seq<char>)
    requires
        store.tasks.dom().finite(),
        store.has_job(a),
        store.has_job(b),
        store.at_least_as_late(a, b),
    ensures
        is_as_late(store, a, b),
{
    lemma_job_has_last_time(store, a);
    lemma_job_has_last_time(store, b);
    let at = store.last_time(a);
    let other = store.last_time(b);
    assert(store.is_last_time(a, at));
    assert(store.is_last_time(b, other));
    let x = choose|x: Seq<char>| #[trigger]
        store.has_task(a, x) && store.tasks[x].last_time() == at;
    assert(store.tasks.contains_key(x));
    assert(latest_of(store.tasks[x]) == at);
    assert forall|y: Seq<char>| #[trigger]
        store.tasks.contains_key(y) && store.tasks[y].job_id == b implies !text_before(
        latest_of(store.tasks[x]),
        latest_of(store.tasks[y]),
    ) by {
        assert(store.has_task(b, y));
        let there = latest_of(store.tasks[y]);
        assert(!text_before(other, there));
        if text_before(at, there) {
            lemma_before_total(other, there);
            if other != there {
                lemma_before_transitive(at, there, other);
            }
        }
    }
}

/// A job of which a task is kept has a last time, as there are finitely many tasks.
proof fn lemma_job_has_last_time(store: StoreView, job_id: Seq<char>)
    requires
        store.tasks.dom().finite(),
        store.has_job(job_id),
    ensures
        exists|at: Seq<char>| #[trigger] store.is_last_time(job_id, at),
{
    let known = choose|known: Seq<char>| store.has_task(job_id, known);
    lemma_last_among(store, job_id, store.tasks.dom(), known);
}

/// Among finitely many tasks of a job one is the latest.
proof fn lemma_last_among(
    store: StoreView,
    job_id: Seq<char>,
    among: Set<Seq<char>>,
    known: Seq<char>,
)
    requires
        among.finite(),
        among.contains(known),
        store.has_task(job_id, known),
        forall|id: Seq<char>| #[trigger]
            store.has_task(job_id, id) && !among.contains(id) ==> !text_before(
                store.tasks[known].last_time(),
                store.tasks[id].last_time(),
            ),
    ensures
        exists|at: Seq<char>| #[trigger] store.is_last_time(job_id, at),
    decreases among.len(),
{
    let here = store.tasks[known].last_time();
    if exists|id: Seq<char>| #[trigger]
        store.has_task(job_id, id) && text_before(here, store.tasks[id].last_time()) {
        let id = choose|id: Seq<char>| #[trigger]
            store.has_task(job_id, id) && text_before(here, store.tasks[id].last_time());
        let there = store.tasks[id].last_time();
        assert(among.contains(id));
        lemma_before_irreflexive(here);
        let fewer = among.remove(known);
        assert forall|other: Seq<char>| #[trigger]
            store.has_task(job_id, other) && !fewer.contains(other) implies !text_before(
            there,
            store.tasks[other].last_time(),
        ) by {
            let last = store.tasks[other].last_time();
            if text_before(there, last) {
                lemma_before_transitive(here, there, last);
                if other == known {
                    lemma_before_irreflexive(here);
                }
            }
        }
        lemma_last_among(store, job_id, fewer, id);
    } else {
        assert(store.is_last_time(job_id, here));
    }
}

} // verus!
