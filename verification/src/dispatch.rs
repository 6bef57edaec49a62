//! What the steps of a run do: what the client is told, what is kept, and what counts as running.
use vstd::prelude::*;

use crate::coordinator::{law_kill_reaches_the_running_tasks, CoordinatorState, StateView};
use crate::ids::JobId;
use crate::jobstore::{law_dispatched_task_is_queued, SqliteJobStore, StoreView};
use crate::leases::{not_connected, not_connected_text};
use crate::protocol::{ClientResponse, RunProcessRequest};
use crate::runs::{are_distinct, recorded, RunPlan, RunStep};
use crate::time::Timestamp;

verus! {

impl RunStep {
    /// What the client is told of this step, if anything: that the node is not connected.
    pub fn reply(&self) -> (r: Option<ClientResponse>)
        ensures
            match *self {
                RunStep::NotConnected(node_id) => r matches Some(ClientResponse::Error(text))
                    && text@ == not_connected_text(node_id@),
                RunStep::Record(_) => r is None,
            },
    {
        match self {
            RunStep::NotConnected(node_id) => Some(ClientResponse::Error(not_connected(node_id))),
            RunStep::Record(_) => None,
        }
    }
}

impl StateView {
    /// The state after a step of a run: a task that it records counts as running on its node.
    pub open spec fn after_step(self, step: RunStep) -> StateView {
        match step {
            RunStep::Record(task) => self.running(task.node_id@, task.task_id@, task.job_id),
            RunStep::NotConnected(_) => self,
        }
    }

    /// The state after steps of a run.
    pub open spec fn after_steps(self, steps: Seq<RunStep>) -> StateView
        decreases steps.len(),
    {
        if steps.len() == 0 {
            self
        } else {
            self.after_steps(steps.drop_last()).after_step(steps.last())
        }
    }
}

impl CoordinatorState {
    /// Takes a step of a run in.
    pub fn take_step(&mut self, step: &RunStep)
        ensures
            final(self)@ == old(self)@.after_step(*step),
            final(self).nodes.keys() == old(self).nodes.keys(),
    {
        match step {
            RunStep::Record(task) => {
                self.mark_running(&task.node_id, &task.task_id, &task.job_id);
            },
            RunStep::NotConnected(_) => {},
        }
    }
}

impl StoreView {
    /// The store after a step of a run: a task that it records is kept as dispatched.
    pub open spec fn after_step(self, step: RunStep, at: Timestamp) -> StoreView {
        match step {
            RunStep::Record(task) => self.dispatched(
                task.job_id@,
                task.task_id@,
                task.node_id@,
                at,
            ),
            RunStep::NotConnected(_) => self,
        }
    }

    /// The store after steps of a run, each at its time.
    pub open spec fn after_steps(self, steps: Seq<RunStep>, times: Seq<Timestamp>) -> StoreView
        decreases steps.len(),
    {
        if steps.len() == 0 {
            self
        } else {
            self.after_steps(steps.drop_last(), times.drop_last()).after_step(
                steps.last(),
                times.last(),
            )
        }
    }
}

impl SqliteJobStore {
    /// Keeps a step of a run.
    pub fn take_step(&mut self, step: &RunStep, now: Timestamp)
        ensures
            final(self)@ == old(self)@.after_step(*step, now),
    {
        match step {
            RunStep::Record(task) => {
                self.record_task_dispatched(&task.job_id, &task.task_id, &task.node_id, now);
            },
            RunStep::NotConnected(_) => {},
        }
    }
}

/// Whether the tasks that steps record are all of one job.
spec fn are_of(steps: Seq<RunStep>, job_id: JobId) -> bool {
    forall|i: int|
        0 <= i < steps.len() ==> (#[trigger] steps[i] matches RunStep::Record(task) ==> task.job_id
            == job_id)
}

/// Whether the tasks of a run that are given to connected nodes run there.
spec fn all_run(state: StateView, steps: Seq<RunStep>, job_id: JobId) -> bool {
    forall|k: int|
        0 <= k < recorded(steps).len() ==> {
            let task = #[trigger] recorded(steps)[k];
            state.nodes.contains_key(task.node_id@) ==> state.runs(task.node_id@, task.task_id@)
                && state.nodes[task.node_id@].running[task.task_id@] == job_id
        }
}

/// Steps of a run leave nodes and connections as they are, and each task that they record runs.
proof fn lemma_steps(state: StateView, steps: Seq<RunStep>, job_id: JobId)
    requires
        are_of(steps, job_id),
    ensures
        state.after_steps(steps).nodes.dom() == state.nodes.dom(),
        forall|node_id: Seq<char>| #[trigger]
            state.nodes.contains_key(node_id) ==> state.after_steps(steps).nodes[node_id].connection
                == state.nodes[node_id].connection,
        all_run(state.after_steps(steps), steps, job_id),
    decreases steps.len(),
{
    if steps.len() > 0 {
        let fewer = steps.drop_last();
        let last = steps[steps.len() - 1];
        assert forall|i: int| 0 <= i < fewer.len() implies (#[trigger] fewer[i] matches
            RunStep::Record(task) ==> task.job_id == job_id) by {
            assert(fewer[i] == steps[i]);
        }
        lemma_steps(state, fewer, job_id);
        let before = state.after_steps(fewer);
        let after = state.after_steps(steps);
        assert(after == before.after_step(last));
        assert(after.nodes.dom() =~= before.nodes.dom());
        assert forall|k: int| 0 <= k < recorded(steps).len() implies {
            let task = #[trigger] recorded(steps)[k];
            after.nodes.contains_key(task.node_id@) ==> after.runs(task.node_id@, task.task_id@)
                && after.nodes[task.node_id@].running[task.task_id@] == job_id
        } by {
            if k < recorded(fewer).len() {
                assert(recorded(steps)[k] == recorded(fewer)[k]);
            }
        }
    }
}

/// Once the steps of a run are taken, each of its tasks can be ended: the orders that end the job
/// reach the connection that was told to start the task, for that task.
pub proof fn law_run_can_be_killed(
    before: CoordinatorState,
    request: RunProcessRequest,
    plan: RunPlan,
    after: CoordinatorState,
    i: int,
)
    requires
        before.is_plan(request, plan),
        after@ == before@.after_steps(plan.steps@),
        0 <= i < plan.orders@.len(),
    ensures
        after.kills(after.nodes.keys().len() as int, plan.job_id@).contains(
            (plan.orders@[i].connection, plan.assignments@[i].task_id@),
        ),
{
    lemma_plan_is_of_its_job(before, request, plan);
    lemma_steps(before@, plan.steps@, plan.job_id);
    let task = recorded(plan.steps@)[i];
    assert(before@.is_order(request, task, plan.orders@[i]));
    assert(after@.runs(task.node_id@, task.task_id@));
    law_kill_reaches_the_running_tasks(
        after,
        plan.job_id@,
        plan.orders@[i].connection,
        task.task_id@,
    );
}

/// Once the steps of a run are taken, each of its tasks is among those that are lost with the
/// task's node.
pub proof fn law_run_is_lost_with_its_nodes(
    before: CoordinatorState,
    request: RunProcessRequest,
    plan: RunPlan,
    after: CoordinatorState,
    i: int,
)
    requires
        before.is_plan(request, plan),
        after@ == before@.after_steps(plan.steps@),
        0 <= i < plan.assignments@.len(),
    ensures
        after.tasks_on(plan.assignments@[i].node_id@).contains(plan.assignments@[i].task_id@),
        after@.nodes[plan.assignments@[i].node_id@].running[plan.assignments@[i].task_id@]
            == plan.job_id,
{
    lemma_plan_is_of_its_job(before, request, plan);
    lemma_steps(before@, plan.steps@, plan.job_id);
    let task = recorded(plan.steps@)[i];
    assert(before@.is_order(request, task, plan.orders@[i]));
    assert(after@.runs(task.node_id@, task.task_id@));
}

/// The tasks of a plan are all of its job.
proof fn lemma_plan_is_of_its_job(
    state: CoordinatorState,
    request: RunProcessRequest,
    plan: RunPlan,
)
    requires
        state.is_plan(request, plan),
    ensures
        are_of(plan.steps@, plan.job_id),
{
    let choice = state.run_choice(request);
    assert forall|i: int| 0 <= i < plan.steps@.len() implies (#[trigger] plan.steps@[i] matches
        RunStep::Record(task) ==> task.job_id == plan.job_id) by {
        assert(state@.is_step(plan.job_id, choice[i], plan.steps@[i]));
    }
}

/// Once the steps of a run are kept, each of its tasks has a row of its own, as queued on its
/// node, where no two tasks have the same identifier.
pub proof fn law_run_is_kept_as_queued(
    store: StoreView,
    steps: Seq<RunStep>,
    times: Seq<Timestamp>,
    k: int,
)
    requires
        times.len() == steps.len(),
        are_distinct(recorded(steps)),
        0 <= k < recorded(steps).len(),
    ensures
        ({
            let task = recorded(steps)[k];
            let after = store.after_steps(steps, times);
            &&& after.has_task(task.job_id@, task.task_id@)
            &&& after.tasks[task.task_id@].node_id == task.node_id@
            &&& after.tasks[task.task_id@].status == "queued"@
        }),
    decreases steps.len(),
{
    let fewer = steps.drop_last();
    let before = store.after_steps(fewer, times.drop_last());
    let task = recorded(steps)[k];
    match steps.last() {
        RunStep::NotConnected(_) => {
            law_run_is_kept_as_queued(store, fewer, times.drop_last(), k);
        },
        RunStep::Record(last) => {
            law_dispatched_task_is_queued(
                before,
                last.job_id@,
                last.task_id@,
                last.node_id@,
                times.last(),
                task.task_id@,
            );
            let n = recorded(fewer).len() as int;
            assert(recorded(steps)[n] == last);
            if k < n {
                assert forall|i: int, j: int| 0 <= i < j < n implies (
                #[trigger] recorded(fewer)[i]).task_id@ != (
                #[trigger] recorded(fewer)[j]).task_id@ by {
                    assert(recorded(steps)[i] == recorded(fewer)[i]);
                    assert(recorded(steps)[j] == recorded(fewer)[j]);
                }
                assert(recorded(steps)[k] == recorded(fewer)[k]);
                law_run_is_kept_as_queued(store, fewer, times.drop_last(), k);
                assert(task.task_id@ != last.task_id@);
            }
        },
    }
}

/// A step that records a task makes it run on its node, under its job, and keeps it as dispatched;
/// a step for a node that is not connected changes nothing.
pub proof fn law_step_does_what_it_says(
    state: StateView,
    store: StoreView,
    step: RunStep,
    at: Timestamp,
    other: Seq<char>,
)
    ensures
        step is NotConnected ==> state.after_step(step) == state && store.after_step(step, at)
            == store,
        step matches RunStep::Record(task) ==> {
            let after = state.after_step(step);
            &&& state.nodes.contains_key(task.node_id@) ==> {
                &&& after.nodes[task.node_id@].running.contains_key(task.task_id@)
                &&& after.nodes[task.node_id@].running[task.task_id@] == task.job_id
                &&& after.nodes[task.node_id@].connection == state.nodes[task.node_id@].connection
            }
            &&& other != task.node_id@ ==> after.nodes.contains_key(other)
                == state.nodes.contains_key(other) && after.nodes[other] == state.nodes[other]
            &&& after.leases == state.leases
            &&& store.after_step(step, at).tasks.contains_key(task.task_id@)
            &&& store.after_step(step, at).tasks[task.task_id@].job_id == task.job_id@
            &&& store.after_step(step, at).tasks[task.task_id@].node_id == task.node_id@
            &&& store.after_step(step, at).tasks[task.task_id@].status == "queued"@
            &&& other != task.task_id@ ==> store.after_step(step, at).tasks.contains_key(other)
                == store.tasks.contains_key(other) && store.after_step(step, at).tasks[other]
                == store.tasks[other]
        },
{
}

} // verus!
