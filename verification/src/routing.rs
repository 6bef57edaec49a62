//! What the coordinator does with the first message of a connection and with a client's request.
use vstd::prelude::*;

use crate::auth::AuthRole;
use crate::coordinator::{
    law_kill_orders_are_for_running_tasks_of_the_job, orders, running_count, CoordinatorState,
    KillOrder, StateView,
};
use crate::diagnosis::{build_job_diagnosis, is_diagnosis};
use crate::ids::{is_fresh_id, JobId};
use crate::jobstore::SqliteJobStore;
use crate::leases::{no_lease_text, LeaseRefusal};
use crate::protocol::{
    ClientRequest, ClientResponse, JobDiagnosis, JobSummary, KillJobRequest, LogLine, NodeInfo,
    RunProcessRequest,
    WireMessage, WorkerMessage,
};
use crate::text::{enclosed, prefixed};

verus! {

/// The role that a connection was authenticated for does not go with its first message.
#[derive(Debug)]
pub struct RoleMismatch;

impl RoleMismatch {
    /// The mismatch in words.
    pub fn message(&self) -> (r: String)
        ensures
            r@ == "authenticated role does not match first message"@,
    {
        "authenticated role does not match first message".to_owned()
    }
}

/// Whether a connection may act in a role: it was authenticated for it, or authentication is off.
pub open spec fn may_act_as(auth_role: Option<AuthRole>, expected: AuthRole) -> bool {
    auth_role is None || auth_role == Some(expected)
}

/// Lets a connection act in a role for which it was authenticated, or in any if authentication is
/// off.
pub fn ensure_role(auth_role: Option<AuthRole>, expected: AuthRole) -> (r: Result<
    (),
    RoleMismatch,
>)
    ensures
        r is Ok <==> may_act_as(auth_role, expected),
{
    match auth_role {
        Some(role) => if role == expected {
            Ok(())
        } else {
            Err(RoleMismatch)
        },
        None => Ok(()),
    }
}

/// What is done with a connection after its first message.
#[derive(Debug)]
pub enum FirstStep {
    Worker(NodeInfo),
    Client(ClientRequest),
    Reject(RoleMismatch),
    Reply(ClientResponse),
}

/// Decides by the first message what a connection is for. `shown` is the message as it is shown
/// to a client that may not begin with it.
pub fn first_step(message: WireMessage, shown: &str, auth_role: Option<AuthRole>) -> (r: FirstStep)
    ensures
        match message {
            WireMessage::Worker(WorkerMessage::Register(info)) => if may_act_as(
                auth_role,
                AuthRole::Worker,
            ) {
                r == FirstStep::Worker(info)
            } else {
                r is Reject
            },
            WireMessage::ClientRequest(request) => if may_act_as(auth_role, AuthRole::Client) {
                r == FirstStep::Client(request)
            } else {
                r is Reject
            },
            _ => r matches FirstStep::Reply(ClientResponse::Error(text)) && text@
                == "unexpected first message: "@ + shown@,
        },
{
    match message {
        WireMessage::Worker(WorkerMessage::Register(info)) => match ensure_role(
            auth_role,
            AuthRole::Worker,
        ) {
            Ok(_) => FirstStep::Worker(info),
            Err(e) => FirstStep::Reject(e),
        },
        WireMessage::ClientRequest(request) => match ensure_role(auth_role, AuthRole::Client) {
            Ok(_) => FirstStep::Client(request),
            Err(e) => FirstStep::Reject(e),
        },
        _ => FirstStep::Reply(
            ClientResponse::Error(prefixed("unexpected first message: ", shown)),
        ),
    }
}

/// A question that the job store answers.
#[derive(Debug)]
pub enum StoreQuery {
    Jobs { limit: usize },
    Logs { job_id: JobId, lines: usize },
    Job { job_id: JobId },
    Diagnosis { job_id: JobId, lines: usize },
}

/// What a client's request comes to: an answer at once, orders to workers and the answer once
/// they are given, a run, or a question to the job store.
#[derive(Debug)]
pub enum ClientStep {
    Reply(ClientResponse),
    Kill { orders: Vec<KillOrder>, reply: ClientResponse },
    Run(RunProcessRequest),
    Query(StoreQuery),
}

/// A number of items, at least one.
pub open spec fn at_least_one(n: usize) -> usize {
    if n < 1 {
        1
    } else {
        n
    }
}

/// A number of items, at least one.
fn one_or_more(n: usize) -> (r: usize)
    ensures
        r == at_least_one(n),
{
    if n < 1 {
        1
    } else {
        n
    }
}

/// What is said of a job that is not there.
pub open spec fn no_job_text(job_id: Seq<char>) -> Seq<char> {
    "job "@ + job_id + " was not found"@
}

/// Whether a step is what a request comes to in a state, and `after` is the state it leaves.
pub open spec fn is_client_step(
    before: CoordinatorState,
    request: ClientRequest,
    r: ClientStep,
    after: CoordinatorState,
) -> bool {
    match request {
        ClientRequest::ListNodes => {
            &&& after == before
            &&& r matches ClientStep::Reply(ClientResponse::Nodes(list))
            &&& list@.len() == before.nodes.keys().len()
            &&& forall|i: int|
                0 <= i < list@.len() ==> before@.nodes[before.nodes.keys()[i]].summed_up(
                    #[trigger] list@[i],
                )
        },
        ClientRequest::RunProcess(run) => after == before && r == ClientStep::Run(run),
        ClientRequest::ListJobs(ask) => after == before && r == ClientStep::Query(
            StoreQuery::Jobs { limit: at_least_one(ask.limit) },
        ),
        ClientRequest::TailJob(ask) => after == before && r == ClientStep::Query(
            StoreQuery::Logs { job_id: ask.job_id, lines: at_least_one(ask.lines) },
        ),
        ClientRequest::KillJob(ask) => {
            &&& after == before
            &&& r matches ClientStep::Kill { orders: list, reply }
            &&& reply == ClientResponse::Ack
            &&& orders(list@) == before.kills(
                before.nodes.keys().len() as int,
                ask.job_id@,
            )
        },
        ClientRequest::JobStatus(ask) => after == before && r == ClientStep::Query(
            StoreQuery::Job { job_id: ask.job_id },
        ),
        ClientRequest::CreateLease(ask) => if before.grants_lease(ask) {
            r matches ClientStep::Reply(ClientResponse::LeaseCreated(s)) && before.leased(
                ask,
                s,
                after@,
            ) && is_fresh_id(s.lease_id@, "lease"@)
        } else {
            &&& after == before
            &&& r matches ClientStep::Reply(ClientResponse::Error(text))
            &&& exists|refusal: LeaseRefusal| #[trigger]
                before.refuses_lease(ask, refusal) && text@ == refusal.text()
        },
        ClientRequest::ListLeases => {
            &&& after == before
            &&& r matches ClientStep::Reply(ClientResponse::Leases(list))
            &&& list@.len() == before.leases.keys().len()
            &&& forall|i: int|
                0 <= i < list@.len() ==> before@.leases[before.leases.keys()[i]].summed_up(
                    #[trigger] list@[i],
                )
        },
        ClientRequest::ReleaseLease(ask) => {
            &&& after@ == (StateView {
                nodes: before@.nodes,
                leases: before@.leases.remove(ask.lease_id@),
            })
            &&& if before@.leases.contains_key(ask.lease_id@) {
                r == ClientStep::Reply(ClientResponse::Ack)
            } else {
                r matches ClientStep::Reply(ClientResponse::Error(text)) && text@ == no_lease_text(
                    ask.lease_id@,
                )
            }
        },
        ClientRequest::DiagnoseJob(ask) => after == before && r == ClientStep::Query(
            StoreQuery::Diagnosis { job_id: ask.job_id, lines: at_least_one(ask.lines) },
        ),
    }
}

/// Decides what a client's request comes to.
pub fn handle_client(state: &mut CoordinatorState, request: ClientRequest) -> (r: ClientStep)
    ensures
        is_client_step(*old(state), request, r, *final(state)),
        old(state)@.well_formed() ==> final(state)@.well_formed(),
{
    match request {
        ClientRequest::ListNodes => ClientStep::Reply(ClientResponse::Nodes(state.list_nodes())),
        ClientRequest::RunProcess(run) => ClientStep::Run(run),
        ClientRequest::ListJobs(ask) => ClientStep::Query(
            StoreQuery::Jobs { limit: one_or_more(ask.limit) },
        ),
        ClientRequest::TailJob(ask) => ClientStep::Query(
            StoreQuery::Logs { job_id: ask.job_id, lines: one_or_more(ask.lines) },
        ),
        ClientRequest::KillJob(ask) => ClientStep::Kill {
            orders: state.kill_job(&ask.job_id),
            reply: ClientResponse::Ack,
        },
        ClientRequest::JobStatus(ask) => ClientStep::Query(StoreQuery::Job { job_id: ask.job_id }),
        ClientRequest::CreateLease(ask) => match state.create_lease(ask) {
            Ok(summary) => ClientStep::Reply(ClientResponse::LeaseCreated(summary)),
            Err(refusal) => ClientStep::Reply(ClientResponse::Error(refusal.message())),
        },
        ClientRequest::ListLeases => ClientStep::Reply(ClientResponse::Leases(state.list_leases())),
        ClientRequest::ReleaseLease(ask) => if state.release_lease(&ask.lease_id) {
            ClientStep::Reply(ClientResponse::Ack)
        } else {
            ClientStep::Reply(
                ClientResponse::Error(
                    enclosed("lease ", ask.lease_id.as_str(), " was not found"),
                ),
            )
        },
        ClientRequest::DiagnoseJob(ask) => ClientStep::Query(
            StoreQuery::Diagnosis { job_id: ask.job_id, lines: one_or_more(ask.lines) },
        ),
    }
}

/// Whether a diagnosis is that of a job by its last `lines` log lines.
pub open spec fn diagnoses(
    store: SqliteJobStore,
    job_id: Seq<char>,
    lines: nat,
    d: JobDiagnosis,
) -> bool {
    exists|s: JobSummary, logs: Seq<LogLine>|
        #![trigger is_diagnosis(s, logs, d)]
        store@.sums_up_job(job_id, s) && store@.lists_logs(job_id, lines, logs) && is_diagnosis(
            s,
            logs,
            d,
        )
}

/// The diagnosis of a job by its last `lines` log lines, if a task of it is kept.
pub fn diagnose_job(store: &SqliteJobStore, job_id: &JobId, lines: usize) -> (r: Option<
    JobDiagnosis,
>)
    ensures
        r is Some <==> store@.has_job(job_id@),
        r matches Some(d) ==> diagnoses(*store, job_id@, lines as nat, d),
{
    match store.get_job(job_id) {
        Some(job) => {
            let logs = store.tail_logs(job_id, lines);
            let ghost summed = job;
            let diagnosis = build_job_diagnosis(job, &logs);
            proof {
                assert(is_diagnosis(summed, logs@, diagnosis));
            }
            Some(diagnosis)
        },
        None => None,
    }
}

impl StoreQuery {
    /// Whether a response answers this question from a store.
    pub open spec fn is_answer(self, store: SqliteJobStore, r: ClientResponse) -> bool {
        match self {
            StoreQuery::Jobs { limit } => r matches ClientResponse::Jobs(list)
                && store@.lists_jobs(limit as nat, list@),
            StoreQuery::Logs { job_id, lines } => r matches ClientResponse::Logs(list)
                && store@.lists_logs(job_id@, lines as nat, list@),
            StoreQuery::Job { job_id } => if store@.has_job(job_id@) {
                r matches ClientResponse::Job(s) && store@.sums_up_job(job_id@, s)
            } else {
                r matches ClientResponse::Error(text) && text@ == no_job_text(job_id@)
            },
            StoreQuery::Diagnosis { job_id, lines } => if store@.has_job(job_id@) {
                r matches ClientResponse::JobDiagnosis(d) && diagnoses(
                    store,
                    job_id@,
                    lines as nat,
                    d,
                )
            } else {
                r matches ClientResponse::Error(text) && text@ == no_job_text(job_id@)
            },
        }
    }

    /// Answers this question from a store.
    pub fn answer(&self, store: &SqliteJobStore) -> (r: ClientResponse)
        ensures
            self.is_answer(*store, r),
    {
        match self {
            StoreQuery::Jobs { limit } => ClientResponse::Jobs(store.list_jobs(*limit)),
            StoreQuery::Logs { job_id, lines } => ClientResponse::Logs(
                store.tail_logs(job_id, *lines),
            ),
            StoreQuery::Job { job_id } => match store.get_job(job_id) {
                Some(job) => ClientResponse::Job(job),
                None => ClientResponse::Error(enclosed("job ", job_id.as_str(), " was not found")),
            },
            StoreQuery::Diagnosis { job_id, lines } => match diagnose_job(store, job_id, *lines) {
                Some(diagnosis) => ClientResponse::JobDiagnosis(diagnosis),
                None => ClientResponse::Error(enclosed("job ", job_id.as_str(), " was not found")),
            },
        }
    }
}

/// A connection may act in the role that it was authenticated for and in no other; where
/// authentication is off, in any.
pub proof fn law_connection_keeps_to_its_role(shown: AuthRole, asked: AuthRole)
    ensures
        may_act_as(None, asked),
        may_act_as(Some(shown), asked) <==> shown == asked,
{
}

/// What a request comes to: lists, logs and diagnoses are asked of the store, with at least one
/// item; runs are passed on as they are; none of these changes the state.
pub proof fn law_requests_ask_for_what_they_say(
    before: CoordinatorState,
    request: ClientRequest,
    r: ClientStep,
    after: CoordinatorState,
)
    requires
        is_client_step(before, request, r, after),
    ensures
        request matches ClientRequest::RunProcess(run) ==> r == ClientStep::Run(run),
        request matches ClientRequest::ListJobs(ask) ==> (r matches ClientStep::Query(
            StoreQuery::Jobs { limit },
        ) && (ask.limit > 0 ==> limit == ask.limit) && (ask.limit == 0 ==> limit == 1)),
        request matches ClientRequest::TailJob(ask) ==> (r matches ClientStep::Query(
            StoreQuery::Logs { job_id, lines },
        ) && job_id == ask.job_id && (ask.lines > 0 ==> lines == ask.lines) && (ask.lines == 0
            ==> lines == 1)),
        request matches ClientRequest::DiagnoseJob(ask) ==> (r matches ClientStep::Query(
            StoreQuery::Diagnosis { job_id, lines },
        ) && job_id == ask.job_id && (ask.lines > 0 ==> lines == ask.lines) && (ask.lines == 0
            ==> lines == 1)),
        request matches ClientRequest::JobStatus(ask) ==> r == ClientStep::Query(
            StoreQuery::Job { job_id: ask.job_id },
        ),
        !(request is CreateLease) && !(request is ReleaseLease) ==> after == before,
{
}

/// A request to end a job gives an order for each task of it that runs, and is acknowledged,
/// whether there is one or not.
pub proof fn law_kill_request_gives_orders(
    before: CoordinatorState,
    job_id: JobId,
    r: ClientStep,
    after: CoordinatorState,
)
    requires
        is_client_step(
            before,
            ClientRequest::KillJob(KillJobRequest { job_id }),
            r,
            after,
        ),
    ensures
        r matches ClientStep::Kill { orders: list, reply } && reply == ClientResponse::Ack && (
        forall|connection: u64, task_id: Seq<char>|
            is_ordered(list@, connection, task_id) <==> #[trigger] runs_for(
                before@,
                job_id@,
                connection,
                task_id,
            )) && list@.len() == running_count(
            before,
            before.nodes.keys().len() as int,
            job_id@,
        ),
{
    match r {
        ClientStep::Kill { orders: list, .. } => {
            assert(orders(list@).len() == list@.len());
            law_kill_orders_are_for_running_tasks_of_the_job(before, job_id@, 0, Seq::empty());
            assert forall|connection: u64, task_id: Seq<char>|
                is_ordered(list@, connection, task_id) <==> #[trigger] runs_for(
                    before@,
                    job_id@,
                    connection,
                    task_id,
                ) by {
                law_kill_orders_are_for_running_tasks_of_the_job(
                    before,
                    job_id@,
                    connection,
                    task_id,
                );
                let all = orders(list@);
                if is_ordered(list@, connection, task_id) {
                    let i = choose|i: int|
                        0 <= i < list@.len() && (#[trigger] list@[i]).connection == connection
                            && list@[i].task_id@ == task_id;
                    assert(all[i] == (connection, task_id));
                }
                if all.contains((connection, task_id)) {
                    let i = all.index_of((connection, task_id));
                    assert(list@[i].connection == connection && list@[i].task_id@ == task_id);
                }
            }
        },
        _ => {},
    }
}

/// Whether an order for a task goes to a connection.
pub open spec fn is_ordered(list: Seq<KillOrder>, connection: u64, task_id: Seq<char>) -> bool {
    exists|i: int|
        0 <= i < list.len() && (#[trigger] list[i]).connection == connection && list[i].task_id@
            == task_id
}

/// Whether a task of a job runs on a node with a connection.
pub open spec fn runs_for(
    state: StateView,
    job_id: Seq<char>,
    connection: u64,
    task_id: Seq<char>,
) -> bool {
    exists|node_id: Seq<char>| #[trigger]
        state.nodes.contains_key(node_id) && state.nodes[node_id].running.contains_key(task_id)
            && state.nodes[node_id].running[task_id]@ == job_id && state.nodes[node_id].connection
            == connection
}

/// What is answered of leases: a granted one as it is kept from now on, a released one with an
/// acknowledgement if it was active, and an error, with nothing changed, where it was not.
pub proof fn law_lease_requests_are_answered(
    before: CoordinatorState,
    request: ClientRequest,
    r: ClientStep,
    after: CoordinatorState,
)
    requires
        is_client_step(before, request, r, after),
    ensures
        request matches ClientRequest::CreateLease(ask) ==> {
            &&& before.grants_lease(ask) ==> (r matches ClientStep::Reply(
                ClientResponse::LeaseCreated(s),
            ) && after@.leases.contains_key(s.lease_id@) && after@.leases[s.lease_id@].nodes@
                == s.nodes@ && after@.nodes == before@.nodes)
            &&& !before.grants_lease(ask) ==> after == before && (r matches ClientStep::Reply(
                ClientResponse::Error(_),
            ))
        },
        request matches ClientRequest::ReleaseLease(ask) ==> {
            &&& !after@.leases.contains_key(ask.lease_id@)
            &&& forall|k: Seq<char>|
                k != ask.lease_id@ ==> #[trigger] after@.leases.contains_key(k)
                    == before@.leases.contains_key(k)
            &&& after@.nodes == before@.nodes
            &&& before@.leases.contains_key(ask.lease_id@) ==> r == ClientStep::Reply(
                ClientResponse::Ack,
            )
            &&& !before@.leases.contains_key(ask.lease_id@) ==> (r matches ClientStep::Reply(
                ClientResponse::Error(text),
            ) && text@ == "lease "@ + ask.lease_id@ + " was not found"@)
        },
        request is ListLeases ==> (r matches ClientStep::Reply(ClientResponse::Leases(list))
            && list@.len() == before.leases.keys().len() && forall|i: int|
            0 <= i < list@.len() ==> {
                let record = before@.leases[before.leases.keys()[i]];
                &&& (#[trigger] list@[i]).lease_id == record.lease_id
                &&& list@[i].nodes@ == record.nodes@
                &&& list@[i].exclusive == record.exclusive
                &&& list@[i].gpus_per_node == record.gpus_per_node
            }),
        request is ListNodes ==> (r matches ClientStep::Reply(ClientResponse::Nodes(list))
            && list@.len() == before.nodes.keys().len() && forall|i: int|
            0 <= i < list@.len() ==> {
                let node = before@.nodes[before.nodes.keys()[i]];
                &&& (#[trigger] list@[i]).node_id == node.info.node_id
                &&& list@[i].hostname == node.info.hostname
                &&& list@[i].last_seen == node.last_seen
                &&& list@[i].online
            }),
{
}

/// What is asked of the store is answered by what is kept: of a job that is not there, that it
/// was not found.
pub proof fn law_store_answers(query: StoreQuery, store: SqliteJobStore, r: ClientResponse)
    requires
        query.is_answer(store, r),
    ensures
        match query {
            StoreQuery::Jobs { limit } => r matches ClientResponse::Jobs(list) && list@.len()
                <= limit && store@.lists_jobs(limit as nat, list@),
            StoreQuery::Logs { job_id, lines } => r matches ClientResponse::Logs(list)
                && list@.len() <= lines && store@.lists_logs(job_id@, lines as nat, list@),
            StoreQuery::Job { job_id } => {
                &&& is_kept(store, job_id@) ==> (r matches ClientResponse::Job(s) && s.job_id@
                    == job_id@ && store@.sums_up_job(job_id@, s))
                &&& !is_kept(store, job_id@) ==> (r matches ClientResponse::Error(text) && text@
                    == "job "@ + job_id@ + " was not found"@)
            },
            StoreQuery::Diagnosis { job_id, lines } => {
                &&& is_kept(store, job_id@) ==> (r matches ClientResponse::JobDiagnosis(d)
                    && d.job_id@ == job_id@ && exists|s: JobSummary, logs: Seq<LogLine>|
                    #![trigger is_diagnosis(s, logs, d)]
                    is_diagnosis(s, logs, d) && store@.sums_up_job(job_id@, s) && store@.lists_logs(
                        job_id@,
                        lines as nat,
                        logs,
                    ))
                &&& !is_kept(store, job_id@) ==> (r matches ClientResponse::Error(text) && text@
                    == "job "@ + job_id@ + " was not found"@)
            },
        },
{
    match query {
        StoreQuery::Job { job_id } => {
            lemma_is_kept(store, job_id@);
        },
        StoreQuery::Diagnosis { job_id, .. } => {
            lemma_is_kept(store, job_id@);
        },
        _ => {},
    }
}

/// Whether a task of a job is kept.
pub open spec fn is_kept(store: SqliteJobStore, job_id: Seq<char>) -> bool {
    exists|task_id: Seq<char>| #[trigger]
        store@.tasks.contains_key(task_id) && store@.tasks[task_id].job_id == job_id
}

/// A job is there exactly if a task of it is kept.
proof fn lemma_is_kept(store: SqliteJobStore, job_id: Seq<char>)
    ensures
        is_kept(store, job_id) == store@.has_job(job_id),
{
    if is_kept(store, job_id) {
        let task_id = choose|task_id: Seq<char>| #[trigger]
            store@.tasks.contains_key(task_id) && store@.tasks[task_id].job_id == job_id;
        assert(store@.has_task(job_id, task_id));
    }
    if store@.has_job(job_id) {
        let task_id = choose|task_id: Seq<char>| store@.has_task(job_id, task_id);
        assert(store@.tasks.contains_key(task_id));
    }
}

} // verus!
