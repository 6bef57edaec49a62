//! The launch of `torchrun` on several nodes: one rank per node.
use vstd::prelude::*;
use vstd::string::StringExecFns;

use crate::coordinator::{ids, CoordinatorState};
use crate::ids::{LeaseId, NodeId};
use crate::leases::no_lease_text;
use crate::protocol::{
    copy_nodes, DurationSpec, EnvMap, LeaseSummary, NodeSummary, RunProcessRequest,
};
use crate::runs::{law_task_environment, RunPlan};
use crate::shell::{quote_words, quoted, quoted_words, shell_quote};
use crate::table::Table;
use crate::text::{decimal, decimal_text, enclosed, joined, same, texts};

verus! {

/// What a launch is asked to be.
#[derive(Debug)]
pub struct TorchrunOptions {
    pub nodes: Vec<String>,
    pub lease: Option<String>,
    pub gpus_per_node: u32,
    pub master_addr: Option<String>,
    pub master_port: u16,
    pub cwd: Option<String>,
    pub wait: bool,
    pub timeout_seconds: Option<u64>,
    pub argv: Vec<String>,
}

/// Where the nodes of a launch come from.
#[derive(Debug)]
pub enum Targets {
    Given(Vec<NodeId>),
    OfLease(String),
    All,
}

/// The identifiers that names are.
pub open spec fn named_nodes(names: Seq<String>) -> Seq<NodeId> {
    names.map_values(|name: String| NodeId(name))
}

/// The identifiers that names are.
pub fn node_ids(names: &Vec<String>) -> (r: Vec<NodeId>)
    ensures
        r@ == named_nodes(names@),
{
    let mut r: Vec<NodeId> = Vec::new();
    for i in 0..names.len()
        invariant
            r@ == named_nodes(names@.take(i as int)),
    {
        r.push(NodeId(names[i].clone()));
        proof {
            assert(r@ =~= named_nodes(names@.take(i + 1)));
        }
    }
    proof {
        assert(names@.take(names.len() as int) =~= names@);
    }
    r
}

impl TorchrunOptions {
    /// Where the nodes come from: those that are named, or else the lease's, or else all.
    pub fn targets(&self) -> (r: Targets)
        ensures
            r matches Targets::Given(nodes) ==> self.nodes@.len() > 0 && nodes@ == named_nodes(
                self.nodes@,
            ),
            r matches Targets::OfLease(lease) ==> self.nodes@.len() == 0 && self.lease == Some(
                lease,
            ),
            r is All ==> self.nodes@.len() == 0 && self.lease is None,
    {
        if self.nodes.len() > 0 {
            return Targets::Given(node_ids(&self.nodes));
        }
        match &self.lease {
            Some(lease) => Targets::OfLease(lease.clone()),
            None => Targets::All,
        }
    }
}

/// Whether a lease has this identifier.
pub open spec fn is_lease(lease: LeaseSummary, lease_id: Seq<char>) -> bool {
    lease.lease_id@ == lease_id
}

/// The nodes of the first lease with an identifier.
pub fn lease_nodes(leases: &Vec<LeaseSummary>, lease_id: &str) -> (r: Result<Vec<NodeId>, String>)
    ensures
        match r {
            Ok(nodes) => exists|i: int|
                #![trigger leases@[i]]
                0 <= i < leases@.len() && is_lease(leases@[i], lease_id@) && nodes@
                    == leases@[i].nodes@ && forall|k: int|
                    0 <= k < i ==> !is_lease(#[trigger] leases@[k], lease_id@),
            Err(text) => text@ == no_lease_text(lease_id@) && forall|k: int|
                0 <= k < leases@.len() ==> !is_lease(#[trigger] leases@[k], lease_id@),
        },
        r matches Ok(nodes) ==> exists|i: int|
            0 <= i < leases@.len() && (#[trigger] leases@[i]).lease_id@ == lease_id@ && nodes@
                == leases@[i].nodes@ && forall|k: int|
                0 <= k < i ==> (#[trigger] leases@[k]).lease_id@ != lease_id@,
        r is Ok <==> exists|i: int|
            0 <= i < leases@.len() && (#[trigger] leases@[i]).lease_id@ == lease_id@,
{
    for i in 0..leases.len()
        invariant
            forall|k: int| 0 <= k < i ==> !is_lease(#[trigger] leases@[k], lease_id@),
    {
        if same(leases[i].lease_id.as_str(), lease_id) {
            return Ok(copy_nodes(&leases[i].nodes));
        }
    }
    Err(enclosed("lease ", lease_id, " was not found"))
}

/// The nodes that summaries are of.
pub open spec fn summed_nodes(nodes: Seq<NodeSummary>) -> Seq<NodeId> {
    nodes.map_values(|node: NodeSummary| node.node_id)
}

/// The nodes that summaries are of.
pub fn listed_nodes(nodes: &Vec<NodeSummary>) -> (r: Vec<NodeId>)
    ensures
        r@ == summed_nodes(nodes@),
{
    let mut r: Vec<NodeId> = Vec::new();
    for i in 0..nodes.len()
        invariant
            r@ == summed_nodes(nodes@.take(i as int)),
    {
        r.push(nodes[i].node_id.clone());
        proof {
            assert(r@ =~= summed_nodes(nodes@.take(i + 1)));
        }
    }
    proof {
        assert(nodes@.take(nodes.len() as int) =~= nodes@);
    }
    r
}

/// The host of a node among summaries: that of the first summary of the node.
pub open spec fn host_of(summaries: Seq<NodeSummary>, node_id: Seq<char>) -> Option<Seq<char>>
    decreases summaries.len(),
{
    if summaries.len() == 0 {
        None
    } else {
        match host_of(summaries.drop_last(), node_id) {
            Some(host) => Some(host),
            None => if summaries.last().node_id@ == node_id {
                Some(summaries.last().hostname@)
            } else {
                None
            },
        }
    }
}

/// The address of the first rank: the host of the first node, or else the node's own name, or
/// else this machine.
pub open spec fn master_host(nodes: Seq<NodeId>, summaries: Seq<NodeSummary>) -> Seq<char> {
    if nodes.len() == 0 {
        "127.0.0.1"@
    } else {
        match host_of(summaries, nodes[0]@) {
            Some(host) => host,
            None => nodes[0]@,
        }
    }
}

/// The address of the first rank.
pub fn default_master_addr(nodes: &Vec<NodeId>, summaries: &Vec<NodeSummary>) -> (r: String)
    ensures
        r@ == master_host(nodes@, summaries@),
{
    if nodes.len() == 0 {
        return "127.0.0.1".to_owned();
    }
    for i in 0..summaries.len()
        invariant
            nodes@.len() > 0,
            host_of(summaries@.take(i as int), nodes@[0]@) is None,
    {
        proof {
            assert(summaries@.take(i + 1).drop_last() =~= summaries@.take(i as int));
            assert(summaries@.take(i + 1).last() == summaries@[i as int]);
        }
        if summaries[i].node_id.is(&nodes[0]) {
            proof {
                lemma_host_stays(summaries@, nodes@[0]@, i + 1);
            }
            return summaries[i].hostname.clone();
        }
    }
    proof {
        assert(summaries@.take(summaries.len() as int) =~= summaries@);
    }
    nodes[0].to_string()
}

/// The host that the first summaries give stays the same with more of them.
proof fn lemma_host_stays(summaries: Seq<NodeSummary>, node_id: Seq<char>, n: int)
    requires
        0 <= n <= summaries.len(),
        host_of(summaries.take(n), node_id) is Some,
    ensures
        host_of(summaries, node_id) == host_of(summaries.take(n), node_id),
    decreases summaries.len(),
{
    if n == summaries.len() {
        assert(summaries.take(n) =~= summaries);
    } else {
        assert(summaries.drop_last().take(n) =~= summaries.take(n));
        lemma_host_stays(summaries.drop_last(), node_id, n);
    }
}

/// The number of nodes of a launch, at least one.
pub open spec fn node_count(nodes: Seq<NodeId>) -> nat {
    if nodes.len() == 0 {
        1
    } else {
        nodes.len()
    }
}

/// The shell command of a launch.
pub open spec fn torchrun_line(
    count: nat,
    gpus_per_node: nat,
    master_addr: Seq<char>,
    master_port: nat,
    argv: Seq<String>,
) -> Seq<char> {
    "exec torchrun --nnodes "@ + decimal_text(count) + " --nproc-per-node "@ + decimal_text(
        gpus_per_node,
    ) + " --node-rank \"$ML_NODE_RANK\" --master-addr "@ + quoted(master_addr) + " --master-port "@
        + decimal_text(master_port) + " "@ + joined(quoted_words(argv), " "@)
}

/// The texts of variables.
pub open spec fn variable_texts(env: Map<Seq<char>, String>) -> Map<Seq<char>, Seq<char>> {
    env.map_values(|value: String| value@)
}

/// The variables of a rank.
pub open spec fn rank_variables(
    rank: nat,
    count: nat,
    gpus_per_node: nat,
    master_addr: Seq<char>,
    master_port: nat,
) -> Map<Seq<char>, Seq<char>> {
    Map::<Seq<char>, Seq<char>>::empty().insert("ML_NODE_RANK"@, decimal_text(rank)).insert(
        "ML_NNODES"@,
        decimal_text(count),
    ).insert("ML_GPUS_PER_NODE"@, decimal_text(gpus_per_node)).insert(
        "ML_MASTER_ADDR"@,
        master_addr,
    ).insert("ML_MASTER_PORT"@, decimal_text(master_port))
}

/// Sets a variable.
fn set_variable(env: &mut EnvMap, name: &str, value: String)
    ensures
        variable_texts(final(env)@) == variable_texts(old(env)@).insert(name@, value@),
{
    let ghost before = env@;
    env.insert(name.to_owned(), value);
    proof {
        assert(variable_texts(env@) =~= variable_texts(before).insert(name@, value@));
    }
}

/// The variables of a rank.
fn rank_env(rank: usize, count: usize, gpus_per_node: u32, master_addr: &str, master_port: u16) -> (r:
    EnvMap)
    ensures
        variable_texts(r@) == rank_variables(
            rank as nat,
            count as nat,
            gpus_per_node as nat,
            master_addr@,
            master_port as nat,
        ),
{
    let mut env: EnvMap = Table::new();
    proof {
        assert(variable_texts(env@) =~= Map::empty());
    }
    set_variable(&mut env, "ML_NODE_RANK", decimal(rank as u64));
    set_variable(&mut env, "ML_NNODES", decimal(count as u64));
    set_variable(&mut env, "ML_GPUS_PER_NODE", decimal(gpus_per_node as u64));
    set_variable(&mut env, "ML_MASTER_ADDR", master_addr.to_owned());
    set_variable(&mut env, "ML_MASTER_PORT", decimal(master_port as u64));
    env
}

/// The variables by node.
pub open spec fn node_variables(env: Map<Seq<char>, EnvMap>) -> Map<
    Seq<char>,
    Map<Seq<char>, Seq<char>>,
> {
    env.map_values(|variables: EnvMap| variable_texts(variables@))
}

/// The variables of the first `n` ranks by node: each node's rank is its last place in the list.
pub open spec fn ranked(
    nodes: Seq<NodeId>,
    n: int,
    gpus_per_node: nat,
    master_addr: Seq<char>,
    master_port: nat,
) -> Map<Seq<char>, Map<Seq<char>, Seq<char>>>
    decreases n,
{
    if n <= 0 {
        Map::empty()
    } else {
        ranked(nodes, n - 1, gpus_per_node, master_addr, master_port).insert(
            nodes[n - 1]@,
            rank_variables(
                (n - 1) as nat,
                node_count(nodes),
                gpus_per_node,
                master_addr,
                master_port,
            ),
        )
    }
}

/// The words and the variables by node of a launch.
pub fn torchrun_request_parts(
    nodes: &Vec<NodeId>,
    gpus_per_node: u32,
    master_addr: &str,
    master_port: u16,
    user_argv: &Vec<String>,
) -> (r: (Vec<String>, Table<EnvMap>))
    ensures
        texts(r.0@) == seq![
            "sh"@,
            "-lc"@,
            torchrun_line(
                node_count(nodes@),
                gpus_per_node as nat,
                master_addr@,
                master_port as nat,
                user_argv@,
            ),
        ],
        node_variables(r.1@) == ranked(
            nodes@,
            nodes@.len() as int,
            gpus_per_node as nat,
            master_addr@,
            master_port as nat,
        ),
{
    let count = if nodes.len() == 0 {
        1
    } else {
        nodes.len()
    };
    let mut command = "exec torchrun --nnodes ".to_owned();
    command.append(decimal(count as u64).as_str());
    command.append(" --nproc-per-node ");
    command.append(decimal(gpus_per_node as u64).as_str());
    command.append(" --node-rank \"$ML_NODE_RANK\" --master-addr ");
    command.append(shell_quote(master_addr).as_str());
    command.append(" --master-port ");
    command.append(decimal(master_port as u64).as_str());
    command.append(" ");
    command.append(quote_words(user_argv).as_str());
    let mut node_env: Table<EnvMap> = Table::new();
    proof {
        assert(node_variables(node_env@) =~= Map::empty());
    }
    for rank in 0..nodes.len()
        invariant
            count == node_count(nodes@),
            node_variables(node_env@) == ranked(
                nodes@,
                rank as int,
                gpus_per_node as nat,
                master_addr@,
                master_port as nat,
            ),
    {
        let env = rank_env(rank, count, gpus_per_node, master_addr, master_port);
        let ghost before = node_env@;
        node_env.insert(nodes[rank].to_string(), env);
        proof {
            assert(node_variables(node_env@) =~= node_variables(before).insert(
                nodes@[rank as int]@,
                variable_texts(env@),
            ));
        }
    }
    let mut argv: Vec<String> = Vec::new();
    let ghost line = command@;
    argv.push("sh".to_owned());
    argv.push("-lc".to_owned());
    argv.push(command);
    proof {
        assert(texts(argv@) =~= seq!["sh"@, "-lc"@, line]);
    }
    (argv, node_env)
}

impl TorchrunOptions {
    /// The address of the first rank: the one that is given, or else that of the first node.
    pub open spec fn addr(self, nodes: Seq<NodeId>, summaries: Seq<NodeSummary>) -> Seq<char> {
        match self.master_addr {
            Some(addr) => addr@,
            None => master_host(nodes, summaries),
        }
    }

    /// The run that launches on these nodes.
    pub fn request(&self, nodes: Vec<NodeId>, summaries: &Vec<NodeSummary>) -> (r: RunProcessRequest)
        ensures
            r.nodes == nodes,
            texts(r.argv@) == seq![
                "sh"@,
                "-lc"@,
                torchrun_line(
                    node_count(nodes@),
                    self.gpus_per_node as nat,
                    self.addr(nodes@, summaries@),
                    self.master_port as nat,
                    self.argv@,
                ),
            ],
            r.cwd == self.cwd,
            r.env@ == Map::<Seq<char>, String>::empty(),
            node_variables(r.node_env@) == ranked(
                nodes@,
                nodes@.len() as int,
                self.gpus_per_node as nat,
                self.addr(nodes@, summaries@),
                self.master_port as nat,
            ),
            r.lease_id == (match self.lease {
                Some(lease) => Some(LeaseId(lease)),
                None => None,
            }),
            r.timeout == (match self.timeout_seconds {
                Some(seconds) => Some(DurationSpec { seconds }),
                None => None,
            }),
            r.wait == self.wait,
    {
        let master_addr = match &self.master_addr {
            Some(addr) => addr.clone(),
            None => default_master_addr(&nodes, summaries),
        };
        let (argv, node_env) = torchrun_request_parts(
            &nodes,
            self.gpus_per_node,
            master_addr.as_str(),
            self.master_port,
            &self.argv,
        );
        let lease_id = match &self.lease {
            Some(lease) => Some(LeaseId(lease.clone())),
            None => None,
        };
        let timeout = match self.timeout_seconds {
            Some(seconds) => Some(DurationSpec { seconds }),
            None => None,
        };
        RunProcessRequest {
            nodes,
            argv,
            cwd: self.cwd.clone(),
            env: Table::new(),
            node_env,
            lease_id,
            timeout,
            wait: self.wait,
        }
    }
}

/// Where no node is named twice, each node's variables hold the node's own place as its rank, and
/// no other node has variables.
pub proof fn law_each_node_has_its_rank(
    nodes: Seq<NodeId>,
    gpus_per_node: nat,
    master_addr: Seq<char>,
    master_port: nat,
    i: int,
    n: int,
)
    requires
        ids(nodes).no_duplicates(),
        0 <= i < n <= nodes.len(),
    ensures
        ({
            let env = ranked(nodes, n, gpus_per_node, master_addr, master_port);
            &&& env.contains_key(nodes[i]@)
            &&& env[nodes[i]@] == rank_variables(
                i as nat,
                node_count(nodes),
                gpus_per_node,
                master_addr,
                master_port,
            )
            &&& forall|k: Seq<char>| #[trigger] env.contains_key(k) ==> ids(nodes).contains(k)
        }),
    decreases n,
{
    assert(ids(nodes)[n - 1] == nodes[n - 1]@);
    if i < n - 1 {
        law_each_node_has_its_rank(nodes, gpus_per_node, master_addr, master_port, i, n - 1);
        assert(ids(nodes)[i] != ids(nodes)[n - 1]);
    } else if n > 1 {
        law_each_node_has_its_rank(nodes, gpus_per_node, master_addr, master_port, 0, n - 1);
    } else {
        assert(ranked(nodes, 0, gpus_per_node, master_addr, master_port)
            =~= Map::<Seq<char>, Map<Seq<char>, Seq<char>>>::empty());
    }
}

/// The variables of a rank hold the rank under the name by which the command refers to it.
pub proof fn law_rank_is_under_its_name(
    rank: nat,
    count: nat,
    gpus_per_node: nat,
    master_addr: Seq<char>,
    master_port: nat,
)
    ensures
        rank_variables(rank, count, gpus_per_node, master_addr, master_port)["ML_NODE_RANK"@]
            == decimal_text(rank),
        rank_variables(rank, count, gpus_per_node, master_addr, master_port)["ML_MASTER_ADDR"@]
            == master_addr,
{
    reveal_strlit("ML_NODE_RANK");
    reveal_strlit("ML_NNODES");
    reveal_strlit("ML_GPUS_PER_NODE");
    reveal_strlit("ML_MASTER_ADDR");
    reveal_strlit("ML_MASTER_PORT");
    assert("ML_NODE_RANK"@.len() == 12);
    assert("ML_NNODES"@.len() == 9);
    assert("ML_GPUS_PER_NODE"@.len() == 16);
    assert("ML_MASTER_ADDR"@.len() == 14);
    assert("ML_MASTER_PORT"@.len() == 14);
    assert("ML_MASTER_ADDR"@[10] == 'A');
    assert("ML_MASTER_PORT"@[10] == 'P');
}

/// The variables of a rank are these five and no others.
pub proof fn law_variables_of_a_rank(
    rank: nat,
    count: nat,
    gpus_per_node: nat,
    master_addr: Seq<char>,
    master_port: nat,
    name: Seq<char>,
)
    ensures
        ({
            let env = rank_variables(rank, count, gpus_per_node, master_addr, master_port);
            &&& env.contains_key(name) <==> name == "ML_NODE_RANK"@ || name == "ML_NNODES"@ || name
                == "ML_GPUS_PER_NODE"@ || name == "ML_MASTER_ADDR"@ || name == "ML_MASTER_PORT"@
            &&& env["ML_NODE_RANK"@] == decimal_text(rank)
            &&& env["ML_NNODES"@] == decimal_text(count)
            &&& env["ML_GPUS_PER_NODE"@] == decimal_text(gpus_per_node)
            &&& env["ML_MASTER_ADDR"@] == master_addr
            &&& env["ML_MASTER_PORT"@] == decimal_text(master_port)
        }),
{
    law_rank_is_under_its_name(rank, count, gpus_per_node, master_addr, master_port);
    reveal_strlit("ML_NODE_RANK");
    reveal_strlit("ML_NNODES");
    reveal_strlit("ML_GPUS_PER_NODE");
    reveal_strlit("ML_MASTER_ADDR");
    reveal_strlit("ML_MASTER_PORT");
    assert("ML_NODE_RANK"@.len() == 12);
    assert("ML_NNODES"@.len() == 9);
    assert("ML_GPUS_PER_NODE"@.len() == 16);
    assert("ML_MASTER_ADDR"@.len() == 14);
    assert("ML_MASTER_PORT"@.len() == 14);
    assert("ML_MASTER_ADDR"@[10] == 'A');
    assert("ML_MASTER_PORT"@[10] == 'P');
}

/// From the client to the worker: the order that starts the task of the node at place `i` of a
/// launch has `i` as its rank, and the number of nodes, the address and the port of the launch.
pub proof fn law_launched_task_has_its_rank(
    options: TorchrunOptions,
    summaries: Seq<NodeSummary>,
    request: RunProcessRequest,
    state: CoordinatorState,
    plan: RunPlan,
    i: int,
    k: int,
)
    requires
        ids(request.nodes@).no_duplicates(),
        request.env@ == Map::<Seq<char>, String>::empty(),
        node_variables(request.node_env@) == ranked(
            request.nodes@,
            request.nodes@.len() as int,
            options.gpus_per_node as nat,
            options.addr(request.nodes@, summaries),
            options.master_port as nat,
        ),
        state.is_plan(request, plan),
        0 <= i < request.nodes@.len(),
        0 <= k < plan.orders@.len(),
        plan.orders@[k].spec.run.node_id@ == request.nodes@[i]@,
    ensures
        ({
            let env = plan.orders@[k].spec.run.env@;
            &&& env.contains_key("ML_NODE_RANK"@) && env["ML_NODE_RANK"@]@ == decimal_text(i as nat)
            &&& env.contains_key("ML_NNODES"@) && env["ML_NNODES"@]@ == decimal_text(
                request.nodes@.len(),
            )
            &&& env.contains_key("ML_GPUS_PER_NODE"@) && env["ML_GPUS_PER_NODE"@]@ == decimal_text(
                options.gpus_per_node as nat,
            )
            &&& env.contains_key("ML_MASTER_ADDR"@) && env["ML_MASTER_ADDR"@]@ == options.addr(
                request.nodes@,
                summaries,
            )
            &&& env.contains_key("ML_MASTER_PORT"@) && env["ML_MASTER_PORT"@]@ == decimal_text(
                options.master_port as nat,
            )
        }),
{
    let node_id = request.nodes@[i]@;
    let addr = options.addr(request.nodes@, summaries);
    let n = request.nodes@.len() as int;
    law_each_node_has_its_rank(
        request.nodes@,
        options.gpus_per_node as nat,
        addr,
        options.master_port as nat,
        i,
        n,
    );
    assert(node_variables(request.node_env@).contains_key(node_id));
    let own = request.node_env@[node_id]@;
    assert(node_variables(request.node_env@)[node_id] == variable_texts(own));
    let count = node_count(request.nodes@);
    let gpus = options.gpus_per_node as nat;
    let port = options.master_port as nat;
    lemma_launched_variable(request, state, plan, i, k, gpus, addr, port, "ML_NODE_RANK"@);
    lemma_launched_variable(request, state, plan, i, k, gpus, addr, port, "ML_NNODES"@);
    lemma_launched_variable(request, state, plan, i, k, gpus, addr, port, "ML_GPUS_PER_NODE"@);
    lemma_launched_variable(request, state, plan, i, k, gpus, addr, port, "ML_MASTER_ADDR"@);
    lemma_launched_variable(request, state, plan, i, k, gpus, addr, port, "ML_MASTER_PORT"@);
    law_variables_of_a_rank(i as nat, count, gpus, addr, port, "ML_NODE_RANK"@);
}

/// A variable of a rank reaches the task.
proof fn lemma_launched_variable(
    request: RunProcessRequest,
    state: CoordinatorState,
    plan: RunPlan,
    i: int,
    k: int,
    gpus: nat,
    addr: Seq<char>,
    port: nat,
    name: Seq<char>,
)
    requires
        state.is_plan(request, plan),
        0 <= k < plan.orders@.len(),
        plan.orders@[k].spec.run.node_id@ == request.nodes@[i]@,
        request.node_env@.contains_key(request.nodes@[i]@),
        variable_texts(request.node_env@[request.nodes@[i]@]@) == rank_variables(
            i as nat,
            node_count(request.nodes@),
            gpus,
            addr,
            port,
        ),
        name == "ML_NODE_RANK"@ || name == "ML_NNODES"@ || name == "ML_GPUS_PER_NODE"@ || name
            == "ML_MASTER_ADDR"@ || name == "ML_MASTER_PORT"@,
    ensures
        plan.orders@[k].spec.run.env@.contains_key(name),
        plan.orders@[k].spec.run.env@[name]@ == rank_variables(
            i as nat,
            node_count(request.nodes@),
            gpus,
            addr,
            port,
        )[name],
{
    law_task_environment(state, request, plan, k, name);
    law_variables_of_a_rank(i as nat, node_count(request.nodes@), gpus, addr, port, name);
    let own = request.node_env@[request.nodes@[i]@]@;
    assert(variable_texts(own).contains_key(name));
    assert(variable_texts(own)[name] == own[name]@);
}

/// The address of the first rank is the one that is given; else it is the host that a summary of
/// the first node names, the first such summary; else, without one, the first node's own name.
pub proof fn law_address_is_that_of_the_first_node(
    options: TorchrunOptions,
    nodes: Seq<NodeId>,
    summaries: Seq<NodeSummary>,
    i: int,
)
    ensures
        options.master_addr matches Some(addr) ==> options.addr(nodes, summaries) == addr@,
        options.master_addr is None && nodes.len() > 0 && 0 <= i < summaries.len()
            && summaries[i].node_id@ == nodes[0]@ && (forall|k: int|
            0 <= k < i ==> (#[trigger] summaries[k]).node_id@ != nodes[0]@) ==> options.addr(
            nodes,
            summaries,
        ) == summaries[i].hostname@,
        options.master_addr is None && nodes.len() > 0 && (forall|k: int|
            0 <= k < summaries.len() ==> (#[trigger] summaries[k]).node_id@ != nodes[0]@)
            ==> options.addr(nodes, summaries) == nodes[0]@,
        options.master_addr is None && nodes.len() == 0 ==> options.addr(nodes, summaries)
            == "127.0.0.1"@,
{
    if nodes.len() > 0 {
        if 0 <= i < summaries.len() && summaries[i].node_id@ == nodes[0]@ && forall|k: int|
            0 <= k < i ==> (#[trigger] summaries[k]).node_id@ != nodes[0]@ {
            let first = summaries.take(i + 1);
            assert(first.drop_last() =~= summaries.take(i));
            assert(first.last() == summaries[i]);
            lemma_no_host(summaries.take(i), nodes[0]@);
            lemma_host_stays(summaries, nodes[0]@, i + 1);
        }
        if forall|k: int| 0 <= k < summaries.len() ==> (#[trigger] summaries[k]).node_id@
            != nodes[0]@ {
            lemma_no_host(summaries, nodes[0]@);
        }
    }
}

/// Summaries of other nodes name no host of a node.
proof fn lemma_no_host(summaries: Seq<NodeSummary>, node_id: Seq<char>)
    requires
        forall|k: int| 0 <= k < summaries.len() ==> (#[trigger] summaries[k]).node_id@ != node_id,
    ensures
        host_of(summaries, node_id) is None,
    decreases summaries.len(),
{
    if summaries.len() > 0 {
        assert(summaries[summaries.len() - 1] == summaries.last());
        assert forall|k: int| 0 <= k < summaries.drop_last().len() implies (
        #[trigger] summaries.drop_last()[k]).node_id@ != node_id by {
            assert(summaries.drop_last()[k] == summaries[k]);
        }
        lemma_no_host(summaries.drop_last(), node_id);
    }
}

/// Names become the identifiers of nodes one by one.
pub proof fn law_names_become_nodes(names: Seq<String>, summaries: Seq<NodeSummary>, i: int)
    ensures
        named_nodes(names).len() == names.len(),
        0 <= i < names.len() ==> named_nodes(names)[i]@ == names[i]@,
        summed_nodes(summaries).len() == summaries.len(),
        0 <= i < summaries.len() ==> summed_nodes(summaries)[i] == summaries[i].node_id,
{
}

/// The command of a launch takes the user's words at its end, each quoted, one after the other,
/// after the number of nodes and processes, the rank's variable, and the address and port of the
/// first rank.
pub proof fn law_launch_runs_the_words_of_the_user(
    count: nat,
    gpus_per_node: nat,
    master_addr: Seq<char>,
    master_port: nat,
    argv: Seq<String>,
    word: String,
)
    ensures
        torchrun_line(count, gpus_per_node, master_addr, master_port, seq![word])
            == "exec torchrun --nnodes "@ + decimal_text(count) + " --nproc-per-node "@
            + decimal_text(gpus_per_node) + " --node-rank \"$ML_NODE_RANK\" --master-addr "@
            + quoted(master_addr) + " --master-port "@ + decimal_text(master_port) + " "@ + quoted(
            word@,
        ),
        argv.len() > 0 ==> torchrun_line(
            count,
            gpus_per_node,
            master_addr,
            master_port,
            argv.push(word),
        ) == torchrun_line(count, gpus_per_node, master_addr, master_port, argv) + " "@ + quoted(
            word@,
        ),
{
    assert(quoted_words(seq![word]) =~= seq![quoted(word@)]);
    if argv.len() > 0 {
        assert(quoted_words(argv.push(word)) =~= quoted_words(argv).push(quoted(word@)));
        assert(quoted_words(argv.push(word)).drop_last() =~= quoted_words(argv));
        assert(torchrun_line(count, gpus_per_node, master_addr, master_port, argv.push(word))
            =~= torchrun_line(count, gpus_per_node, master_addr, master_port, argv) + " "@ + quoted(
            word@,
        ));
    }
}

/// A launch counts its nodes, at least one.
pub proof fn law_launch_counts_its_nodes(nodes: Seq<NodeId>)
    ensures
        nodes.len() > 0 ==> node_count(nodes) == nodes.len(),
        nodes.len() == 0 ==> node_count(nodes) == 1,
{
}

} // verus!
