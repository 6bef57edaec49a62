//! Reservations of nodes: when they are granted, listed and given up.
use vstd::prelude::*;

use crate::coordinator::{ids, overlap, CoordinatorState, LeaseRecord, StateView};
use crate::ids::{is_fresh_id, LeaseId, NodeId};
use crate::protocol::{copy_nodes, CreateLeaseRequest, LeaseSummary};
use crate::runs::is_in;
use crate::text::{enclosed, prefixed};
use crate::time::Timestamp;

verus! {

/// Whether a lease stands against a new one on nodes with these identifiers: they have a node in
/// common, and one of the two leases is exclusive.
pub open spec fn opposes(lease: LeaseRecord, nodes: Seq<Seq<char>>, exclusive: bool) -> bool {
    (exists|i: int| 0 <= i < nodes.len() && holds_node(lease.nodes@, #[trigger] nodes[i])) && (
    lease.exclusive || exclusive)
}

/// Why a lease is refused.
#[derive(Debug)]
pub enum LeaseRefusal {
    NoNodes,
    NotConnected(NodeId),
    Overlap(LeaseId),
}

impl LeaseRefusal {
    /// The refusal in words.
    pub open spec fn text(self) -> Seq<char> {
        match self {
            LeaseRefusal::NoNodes => "no connected nodes are available for a lease"@,
            LeaseRefusal::NotConnected(node_id) => not_connected_text(node_id@),
            LeaseRefusal::Overlap(lease_id) => "requested nodes overlap with active lease "@
                + lease_id@,
        }
    }

    /// The refusal in words.
    pub fn message(&self) -> (r: String)
        ensures
            r@ == self.text(),
    {
        match self {
            LeaseRefusal::NoNodes => "no connected nodes are available for a lease".to_owned(),
            LeaseRefusal::NotConnected(node_id) => not_connected(node_id),
            LeaseRefusal::Overlap(lease_id) => prefixed(
                "requested nodes overlap with active lease ",
                lease_id.as_str(),
            ),
        }
    }
}

/// What is said of a node that is not connected.
pub open spec fn not_connected_text(node_id: Seq<char>) -> Seq<char> {
    "node "@ + node_id + " is not connected"@
}

/// What is said of a node that is not connected.
pub fn not_connected(node_id: &NodeId) -> (r: String)
    ensures
        r@ == not_connected_text(node_id@),
{
    enclosed("node ", node_id.as_str(), " is not connected")
}

/// What is said of a lease that is not there.
pub open spec fn no_lease_text(lease_id: Seq<char>) -> Seq<char> {
    "lease "@ + lease_id + " was not found"@
}

/// Whether a list holds a node.
pub open spec fn holds_node(nodes: Seq<NodeId>, node_id: Seq<char>) -> bool {
    exists|i: int| 0 <= i < nodes.len() && (#[trigger] nodes[i])@ == node_id
}

/// Whether a list holds a node.
pub(crate) fn contains_node(nodes: &Vec<NodeId>, node_id: &NodeId) -> (r: bool)
    ensures
        r == holds_node(nodes@, node_id@),
{
    for i in 0..nodes.len()
        invariant
            forall|k: int| 0 <= k < i ==> (#[trigger] nodes@[k])@ != node_id@,
    {
        if nodes[i].is(node_id) {
            return true;
        }
    }
    false
}

/// Whether two lists of nodes have a node in common.
fn nodes_overlap(a: &Vec<NodeId>, b: &Vec<NodeId>) -> (r: bool)
    ensures
        r == overlap(a@, b@),
{
    for i in 0..a.len()
        invariant
            forall|k: int, j: int|
                0 <= k < i && 0 <= j < b@.len() ==> (#[trigger] a@[k])@ != (#[trigger] b@[j])@,
    {
        if contains_node(b, &a[i]) {
            proof {
                let j = choose|j: int| 0 <= j < b@.len() && (#[trigger] b@[j])@ == a@[i as int]@;
                assert(a@[i as int]@ == b@[j]@);
            }
            return true;
        }
        proof {
            assert forall|j: int| 0 <= j < b@.len() implies a@[i as int]@ != (#[trigger] b@[j])@ by {}
        }
    }
    false
}

impl LeaseRecord {
    /// Whether a summary says what the record says.
    pub open spec fn summed_up(self, s: LeaseSummary) -> bool {
        &&& s.lease_id == self.lease_id
        &&& s.nodes@ == self.nodes@
        &&& s.gpus_per_node == self.gpus_per_node
        &&& s.exclusive == self.exclusive
        &&& s.created_at == self.created_at
    }

    /// What clients are told of this lease.
    pub fn summary(&self) -> (r: LeaseSummary)
        ensures
            self.summed_up(r),
    {
        LeaseSummary {
            lease_id: self.lease_id.clone(),
            nodes: copy_nodes(&self.nodes),
            gpus_per_node: self.gpus_per_node,
            exclusive: self.exclusive,
            created_at: self.created_at,
        }
    }
}

impl CoordinatorState {
    /// The first `n` connected nodes.
    pub(crate) fn first_nodes(&self, n: usize) -> (r: Vec<NodeId>)
        requires
            n <= self.nodes.keys().len(),
        ensures
            ids(r@) == self.nodes.keys().take(n as int),
    {
        let mut r: Vec<NodeId> = Vec::new();
        for i in 0..n
            invariant
                n <= self.nodes.keys().len(),
                r@.len() == i,
                forall|k: int| 0 <= k < i ==> (#[trigger] r@[k])@ == self.nodes.keys()[k],
        {
            r.push(NodeId(self.nodes.key_at(i).clone()));
        }
        proof {
            assert(ids(r@) =~= self.nodes.keys().take(n as int));
        }
        r
    }

    /// The nodes that a lease is asked for: those that are named, or else as many of the
    /// connected ones as are asked for, at least one and at most all.
    pub open spec fn lease_choice(self, request: CreateLeaseRequest) -> Seq<Seq<char>> {
        if request.nodes@.len() > 0 {
            ids(request.nodes@)
        } else {
            let all = self.nodes.keys();
            let asked = match request.count {
                Some(count) => count as int,
                None => all.len() as int,
            };
            let count = if asked < 1 {
                1
            } else {
                asked
            };
            if count < all.len() {
                all.take(count)
            } else {
                all
            }
        }
    }

    /// The first of the nodes that is not connected.
    fn first_absent(&self, nodes: &Vec<NodeId>) -> (r: Option<usize>)
        ensures
            match r {
                Some(i) => {
                    &&& i < nodes@.len()
                    &&& !self@.nodes.contains_key(nodes@[i as int]@)
                    &&& self@.all_connected(ids(nodes@).take(i as int))
                },
                None => self@.all_connected(ids(nodes@)),
            },
    {
        for i in 0..nodes.len()
            invariant
                forall|k: int| 0 <= k < i ==> self@.nodes.contains_key((#[trigger] nodes@[k])@),
        {
            if !self.nodes.contains_key(nodes[i].as_str()) {
                return Some(i);
            }
        }
        None
    }

    /// A lease that stands against a new one on these nodes.
    fn opposing_lease(&self, nodes: &Vec<NodeId>, exclusive: bool) -> (r: Option<LeaseId>)
        ensures
            match r {
                Some(lease_id) => exists|k: Seq<char>| #[trigger]
                    self@.leases.contains_key(k) && opposes(
                        self@.leases[k],
                        ids(nodes@),
                        exclusive,
                    ) && self@.leases[k].lease_id == lease_id,
                None => forall|k: Seq<char>| #[trigger]
                    self@.leases.contains_key(k) ==> !opposes(
                        self@.leases[k],
                        ids(nodes@),
                        exclusive,
                    ),
            },
    {
        let n = self.leases.len();
        let ghost keys = self.leases.keys();
        for i in 0..n
            invariant
                n == keys.len(),
                keys == self.leases.keys(),
                forall|k: int|
                    0 <= k < i ==> !opposes(
                        self@.leases[#[trigger] keys[k]],
                        ids(nodes@),
                        exclusive,
                    ),
        {
            let lease = self.leases.value_at(i);
            proof {
                lemma_opposes(*lease, nodes@, exclusive);
            }
            if nodes_overlap(&lease.nodes, nodes) && (lease.exclusive || exclusive) {
                proof {
                    assert(self@.leases.contains_key(keys[i as int]));
                }
                return Some(lease.lease_id.clone());
            }
        }
        proof {
            assert forall|k: Seq<char>| #[trigger]
                self@.leases.contains_key(k) implies !opposes(
                self@.leases[k],
                ids(nodes@),
                exclusive,
            ) by {
                assert(keys.contains(k));
                assert(keys[keys.index_of(k)] == k);
            }
        }
        None
    }

    /// Whether a lease can be granted: there are nodes for it, each is connected, and no active
    /// lease stands against it.
    pub open spec fn grants_lease(self, request: CreateLeaseRequest) -> bool {
        let choice = self.lease_choice(request);
        &&& choice.len() > 0
        &&& self@.all_connected(choice)
        &&& forall|k: Seq<char>| #[trigger]
            self@.leases.contains_key(k) ==> !opposes(
                self@.leases[k],
                choice,
                request.exclusive,
            )
    }

    /// Whether a lease is refused for this reason: the first that holds of having no nodes, of
    /// the first node that is not connected, and of an active lease that stands against it.
    pub open spec fn refuses_lease(self, request: CreateLeaseRequest, refusal: LeaseRefusal) -> bool {
        let choice = self.lease_choice(request);
        match refusal {
            LeaseRefusal::NoNodes => choice.len() == 0,
            LeaseRefusal::NotConnected(node_id) => exists|i: int|
                #![trigger choice[i]]
                0 <= i < choice.len() && choice[i] == node_id@ && !self@.nodes.contains_key(
                    choice[i],
                ) && self@.all_connected(choice.take(i)),
            LeaseRefusal::Overlap(lease_id) => {
                &&& choice.len() > 0
                &&& self@.all_connected(choice)
                &&& exists|k: Seq<char>| #[trigger]
                    self@.leases.contains_key(k) && opposes(
                        self@.leases[k],
                        choice,
                        request.exclusive,
                    ) && self@.leases[k].lease_id == lease_id
            },
        }
    }

    /// Whether `after` is this state with a lease added that says what the request asks for.
    pub open spec fn leased(
        self,
        request: CreateLeaseRequest,
        s: LeaseSummary,
        after: StateView,
    ) -> bool {
        let record = after.leases[s.lease_id@];
        &&& ids(s.nodes@) == self.lease_choice(request)
        &&& s.gpus_per_node == request.gpus_per_node
        &&& s.exclusive == request.exclusive
        &&& record.summed_up(s)
        &&& after == (StateView {
            nodes: self@.nodes,
            leases: self@.leases.insert(s.lease_id@, record),
        })
    }

    /// Grants a lease with the given identifier, or says why not.
    pub fn grant_lease(&mut self, request: CreateLeaseRequest, lease_id: LeaseId, now: Timestamp)
        -> (r: Result<LeaseSummary, LeaseRefusal>)
        ensures
            r is Ok <==> old(self).grants_lease(request),
            match r {
                Ok(s) => {
                    &&& old(self).leased(request, s, final(self)@)
                    &&& s.lease_id == lease_id
                    &&& s.created_at == now
                },
                Err(refusal) => {
                    &&& old(self).refuses_lease(request, refusal)
                    &&& *final(self) == *old(self)
                },
            },
            old(self)@.well_formed() ==> final(self)@.well_formed(),
    {
        let ghost choice = self.lease_choice(request);
        let CreateLeaseRequest { mut nodes, count, gpus_per_node, exclusive } = request;
        if nodes.len() == 0 {
            let all = self.nodes.len();
            let asked = match count {
                Some(count) => count,
                None => all,
            };
            let wanted: usize = if asked < 1 {
                1
            } else {
                asked
            };
            let taken: usize = if wanted < all {
                wanted
            } else {
                all
            };
            nodes = self.first_nodes(taken);
            proof {
                assert(self.nodes.keys().take(all as int) =~= self.nodes.keys());
            }
        }
        proof {
            assert(ids(nodes@) == choice);
            assert(nodes@.len() == choice.len());
        }
        if nodes.len() == 0 {
            return Err(LeaseRefusal::NoNodes);
        }
        match self.first_absent(&nodes) {
            Some(i) => {
                proof {
                    assert(choice[i as int] == nodes@[i as int]@);
                }
                return Err(LeaseRefusal::NotConnected(nodes[i].clone()));
            },
            None => {},
        }
        match self.opposing_lease(&nodes, exclusive) {
            Some(opposing) => {
                return Err(LeaseRefusal::Overlap(opposing));
            },
            None => {},
        }
        let record = LeaseRecord { lease_id, nodes, gpus_per_node, exclusive, created_at: now };
        let summary = record.summary();
        self.leases.insert(record.lease_id.to_string(), record);
        proof {
            if old(self)@.well_formed() {
                lemma_lease_fits(old(self)@, lease_id@, record);
            }
        }
        Ok(summary)
    }

    /// Grants a lease with a fresh identifier as of now, or says why not.
    pub fn create_lease(&mut self, request: CreateLeaseRequest) -> (r: Result<
        LeaseSummary,
        LeaseRefusal,
    >)
        ensures
            r is Ok <==> old(self).grants_lease(request),
            match r {
                Ok(s) => {
                    &&& old(self).leased(request, s, final(self)@)
                    &&& is_fresh_id(s.lease_id@, "lease"@)
                },
                Err(refusal) => {
                    &&& old(self).refuses_lease(request, refusal)
                    &&& *final(self) == *old(self)
                },
            },
            old(self)@.well_formed() ==> final(self)@.well_formed(),
    {
        self.grant_lease(request, LeaseId::new(), Timestamp::now())
    }
}

/// Only the identifiers of nodes decide whether a lease stands against them.
proof fn lemma_opposes(lease: LeaseRecord, nodes: Seq<NodeId>, exclusive: bool)
    ensures
        (overlap(lease.nodes@, nodes) && (lease.exclusive || exclusive)) == opposes(
            lease,
            ids(nodes),
            exclusive,
        ),
{
    if overlap(lease.nodes@, nodes) {
        let (i, j) = choose|i: int, j: int|
            0 <= i < lease.nodes@.len() && 0 <= j < nodes.len() && (#[trigger] lease.nodes@[i])@
                == (#[trigger] nodes[j])@;
        assert(holds_node(lease.nodes@, ids(nodes)[j]));
    }
    if exists|i: int| 0 <= i < ids(nodes).len() && holds_node(lease.nodes@, #[trigger] ids(nodes)[i]) {
        let j = choose|j: int|
            0 <= j < ids(nodes).len() && holds_node(lease.nodes@, #[trigger] ids(nodes)[j]);
        let i = choose|i: int|
            0 <= i < lease.nodes@.len() && (#[trigger] lease.nodes@[i])@ == ids(nodes)[j];
        assert(lease.nodes@[i]@ == nodes[j]@);
    }
}

/// A lease that no other stands against fits in.
proof fn lemma_lease_fits(state: StateView, lease_id: Seq<char>, record: LeaseRecord)
    requires
        state.leases_are_compatible(),
        forall|k: Seq<char>| #[trigger]
            state.leases.contains_key(k) ==> !opposes(
                state.leases[k],
                ids(record.nodes@),
                record.exclusive,
            ),
    ensures
        (StateView {
            leases: state.leases.insert(lease_id, record),
            ..state
        }).leases_are_compatible(),
{
    let next = StateView { leases: state.leases.insert(lease_id, record), ..state };
    assert forall|a: Seq<char>, b: Seq<char>|
        #![trigger next.leases[a], next.leases[b]]
        a != b && next.leases.contains_key(a) && next.leases.contains_key(b)
            && next.leases[a].exclusive implies !overlap(
        next.leases[a].nodes@,
        next.leases[b].nodes@,
    ) by {
        if a == lease_id {
            assert(state.leases.contains_key(b));
            lemma_opposes(state.leases[b], record.nodes@, record.exclusive);
            lemma_overlap_symmetric(next.leases[a].nodes@, next.leases[b].nodes@);
        } else if b == lease_id {
            assert(state.leases.contains_key(a));
            lemma_opposes(state.leases[a], record.nodes@, record.exclusive);
        } else {
            assert(state.leases[a] == next.leases[a] && state.leases[b] == next.leases[b]);
        }
    }
}

/// Having a node in common goes both ways.
proof fn lemma_overlap_symmetric(a: Seq<NodeId>, b: Seq<NodeId>)
    ensures
        overlap(a, b) == overlap(b, a),
{
    if overlap(a, b) {
        let (i, j) = choose|i: int, j: int|
            0 <= i < a.len() && 0 <= j < b.len() && (#[trigger] a[i])@ == (#[trigger] b[j])@;
        assert(b[j]@ == a[i]@);
    }
    if overlap(b, a) {
        let (i, j) = choose|i: int, j: int|
            0 <= i < b.len() && 0 <= j < a.len() && (#[trigger] b[i])@ == (#[trigger] a[j])@;
        assert(a[j]@ == b[i]@);
    }
}

impl CoordinatorState {
    /// What clients are told of the active leases.
    pub fn list_leases(&self) -> (r: Vec<LeaseSummary>)
        ensures
            r@.len() == self.leases.keys().len(),
            forall|i: int|
                0 <= i < r@.len() ==> self@.leases[self.leases.keys()[i]].summed_up(
                    #[trigger] r@[i],
                ),
    {
        let n = self.leases.len();
        let mut r: Vec<LeaseSummary> = Vec::new();
        for i in 0..n
            invariant
                n == self.leases.keys().len(),
                r@.len() == i,
                forall|k: int|
                    0 <= k < i ==> self@.leases[self.leases.keys()[k]].summed_up(
                        #[trigger] r@[k],
                    ),
        {
            let lease = self.leases.value_at(i);
            r.push(lease.summary());
        }
        r
    }

    /// Gives a lease up; says whether it was there.
    pub fn release_lease(&mut self, lease_id: &LeaseId) -> (r: bool)
        ensures
            r == old(self)@.leases.contains_key(lease_id@),
            final(self)@ == (StateView {
                nodes: old(self)@.nodes,
                leases: old(self)@.leases.remove(lease_id@),
            }),
            old(self)@.well_formed() ==> final(self)@.well_formed(),
    {
        let removed = self.leases.remove(lease_id.as_str()).is_some();
        proof {
            if old(self)@.well_formed() {
                let before = old(self)@;
                let after = self@;
                assert forall|a: Seq<char>, b: Seq<char>|
                    #![trigger after.leases[a], after.leases[b]]
                    a != b && after.leases.contains_key(a) && after.leases.contains_key(b)
                        && after.leases[a].exclusive implies !overlap(
                    after.leases[a].nodes@,
                    after.leases[b].nodes@,
                ) by {
                    assert(before.leases[a] == after.leases[a]);
                    assert(before.leases[b] == after.leases[b]);
                }
            }
        }
        removed
    }
}

/// In a well-formed state no node is, at whatever places, in the lists of two active leases of
/// which one is exclusive.
pub proof fn law_exclusive_node_has_one_lease(
    state: StateView,
    a: Seq<char>,
    b: Seq<char>,
    i: int,
    j: int,
)
    requires
        state.well_formed(),
        a != b,
        state.leases.contains_key(a),
        state.leases.contains_key(b),
        state.leases[a].exclusive || state.leases[b].exclusive,
        0 <= i < state.leases[a].nodes@.len(),
        0 <= j < state.leases[b].nodes@.len(),
    ensures
        state.leases[a].nodes@[i]@ != state.leases[b].nodes@[j]@,
{
    if state.leases[a].nodes@[i]@ == state.leases[b].nodes@[j]@ {
        assert(overlap(state.leases[a].nodes@, state.leases[b].nodes@));
        lemma_overlap_symmetric(state.leases[a].nodes@, state.leases[b].nodes@);
    }
}

/// Whether a node of a list is, at whatever places, in the list of an active lease, where that
/// lease or the asked one is exclusive.
pub open spec fn is_taken(state: StateView, nodes: Seq<Seq<char>>, exclusive: bool) -> bool {
    exists|k: Seq<char>, i: int|
        #![trigger state.leases.contains_key(k), nodes[i]]
        state.leases.contains_key(k) && 0 <= i < nodes.len() && is_in(
            nodes[i],
            state.leases[k].nodes@,
        ) && (state.leases[k].exclusive || exclusive)
}

/// A lease on named nodes is granted exactly if each of them is connected and none of them is
/// taken.
pub proof fn law_lease_on_named_nodes(state: CoordinatorState, request: CreateLeaseRequest)
    requires
        request.nodes@.len() > 0,
    ensures
        state.lease_choice(request).len() == request.nodes@.len(),
        forall|i: int|
            0 <= i < request.nodes@.len() ==> #[trigger] state.lease_choice(request)[i]
                == request.nodes@[i]@,
        state.grants_lease(request) <==> (forall|i: int|
            0 <= i < request.nodes@.len() ==> state@.nodes.contains_key(
                (#[trigger] request.nodes@[i])@,
            )) && !is_taken(state@, ids(request.nodes@), request.exclusive),
{
    let choice = state.lease_choice(request);
    assert(choice == ids(request.nodes@));
    lemma_taken(state@, choice, request.exclusive);
    if forall|i: int|
        0 <= i < request.nodes@.len() ==> state@.nodes.contains_key(
            (#[trigger] request.nodes@[i])@,
        ) {
        assert forall|i: int| 0 <= i < choice.len() implies state@.nodes.contains_key(
            #[trigger] choice[i],
        ) by {
            assert(choice[i] == request.nodes@[i]@);
        }
    }
    if state@.all_connected(choice) {
        assert forall|i: int| 0 <= i < request.nodes@.len() implies state@.nodes.contains_key(
            (#[trigger] request.nodes@[i])@,
        ) by {
            assert(choice[i] == request.nodes@[i]@);
        }
    }
}

/// Nodes are taken exactly if an active lease stands against them.
proof fn lemma_taken(state: StateView, nodes: Seq<Seq<char>>, exclusive: bool)
    ensures
        is_taken(state, nodes, exclusive) <==> exists|k: Seq<char>| #[trigger]
            state.leases.contains_key(k) && opposes(state.leases[k], nodes, exclusive),
{
    if is_taken(state, nodes, exclusive) {
        let (k, i) = choose|k: Seq<char>, i: int|
            #![trigger state.leases.contains_key(k), nodes[i]]
            state.leases.contains_key(k) && 0 <= i < nodes.len() && is_in(
                nodes[i],
                state.leases[k].nodes@,
            ) && (state.leases[k].exclusive || exclusive);
        assert(holds_node(state.leases[k].nodes@, nodes[i]));
        assert(opposes(state.leases[k], nodes, exclusive));
    }
    if exists|k: Seq<char>| #[trigger]
        state.leases.contains_key(k) && opposes(state.leases[k], nodes, exclusive) {
        let k = choose|k: Seq<char>| #[trigger]
            state.leases.contains_key(k) && opposes(state.leases[k], nodes, exclusive);
        let i = choose|i: int|
            0 <= i < nodes.len() && holds_node(state.leases[k].nodes@, #[trigger] nodes[i]);
        assert(is_in(nodes[i], state.leases[k].nodes@));
        assert(is_taken(state, nodes, exclusive));
    }
}

/// A lease that names no nodes is on connected nodes, the first of them: as many as are asked
/// for, or else all; at least one, and at most those that there are. It is granted exactly if
/// there is one and none of the chosen is taken.
pub proof fn law_lease_on_any_nodes(state: CoordinatorState, request: CreateLeaseRequest)
    requires
        request.nodes@.len() == 0,
    ensures
        ({
            let choice = state.lease_choice(request);
            let all = state.nodes.keys();
            &&& forall|i: int|
                0 <= i < choice.len() ==> choice[i] == all[i] && state@.nodes.contains_key(
                    #[trigger] choice[i],
                )
            &&& request.count is None ==> choice.len() == all.len()
            &&& request.count matches Some(n) ==> {
                &&& n >= 1 && n <= all.len() ==> choice.len() == n
                &&& n > all.len() ==> choice.len() == all.len()
                &&& n == 0 && all.len() > 0 ==> choice.len() == 1
            }
            &&& all.len() == 0 ==> choice.len() == 0
            &&& state.grants_lease(request) <==> all.len() > 0 && !is_taken(
                state@,
                choice,
                request.exclusive,
            )
        }),
{
    let choice = state.lease_choice(request);
    let all = state.nodes.keys();
    lemma_taken(state@, choice, request.exclusive);
    assert forall|i: int| 0 <= i < choice.len() implies choice[i] == all[i]
        && state@.nodes.contains_key(#[trigger] choice[i]) by {
        assert(all.contains(all[i]));
    }
}

/// A refusal names the first node that was asked for and is not connected, or, where all are, an
/// active lease that holds an asked node and excludes sharing it.
pub proof fn law_refusal_of_a_lease_names_its_reason(
    state: CoordinatorState,
    request: CreateLeaseRequest,
    refusal: LeaseRefusal,
)
    requires
        state.refuses_lease(request, refusal),
    ensures
        !state.grants_lease(request),
        match refusal {
            LeaseRefusal::NoNodes => state.lease_choice(request).len() == 0,
            LeaseRefusal::NotConnected(node_id) => !state@.nodes.contains_key(node_id@)
                && state.lease_choice(request).contains(node_id@),
            LeaseRefusal::Overlap(lease_id) => exists|k: Seq<char>, i: int|
                #![trigger state@.leases.contains_key(k), state.lease_choice(request)[i]]
                state@.leases.contains_key(k) && state@.leases[k].lease_id == lease_id && 0 <= i
                    < state.lease_choice(request).len() && is_in(
                    state.lease_choice(request)[i],
                    state@.leases[k].nodes@,
                ) && (state@.leases[k].exclusive || request.exclusive),
        },
        refusal is Overlap ==> forall|i: int|
            0 <= i < state.lease_choice(request).len() ==> state@.nodes.contains_key(
                #[trigger] state.lease_choice(request)[i],
            ),
        refusal matches LeaseRefusal::NotConnected(node_id) ==> exists|i: int|
            0 <= i < state.lease_choice(request).len() && #[trigger] state.lease_choice(request)[i]
                == node_id@ && forall|k: int|
                0 <= k < i ==> state@.nodes.contains_key(
                    #[trigger] state.lease_choice(request)[k],
                ),
{
    let choice = state.lease_choice(request);
    match refusal {
        LeaseRefusal::NoNodes => {},
        LeaseRefusal::NotConnected(node_id) => {
            let i = choose|i: int|
                #![trigger choice[i]]
                0 <= i < choice.len() && choice[i] == node_id@ && !state@.nodes.contains_key(
                    choice[i],
                ) && state@.all_connected(choice.take(i));
            assert(choice[i] == node_id@);
            assert forall|k: int| 0 <= k < i implies state@.nodes.contains_key(
                #[trigger] choice[k],
            ) by {
                assert(choice.take(i)[k] == choice[k]);
            }
        },
        LeaseRefusal::Overlap(lease_id) => {
            let k = choose|k: Seq<char>| #[trigger]
                state@.leases.contains_key(k) && opposes(
                    state@.leases[k],
                    choice,
                    request.exclusive,
                ) && state@.leases[k].lease_id == lease_id;
            let i = choose|i: int|
                0 <= i < choice.len() && holds_node(state@.leases[k].nodes@, #[trigger] choice[i]);
            assert(is_in(choice[i], state@.leases[k].nodes@));
        },
    }
}

/// A granted lease is kept as it was asked for and as the client is told, and nothing else
/// changes.
pub proof fn law_granted_lease_is_kept(
    state: CoordinatorState,
    request: CreateLeaseRequest,
    s: LeaseSummary,
    after: StateView,
    other: Seq<char>,
)
    requires
        state.leased(request, s, after),
    ensures
        after.leases.contains_key(s.lease_id@),
        after.leases[s.lease_id@].lease_id == s.lease_id,
        after.leases[s.lease_id@].nodes@ == s.nodes@,
        after.leases[s.lease_id@].exclusive == request.exclusive,
        after.leases[s.lease_id@].gpus_per_node == request.gpus_per_node,
        after.leases[s.lease_id@].created_at == s.created_at,
        s.exclusive == request.exclusive,
        s.gpus_per_node == request.gpus_per_node,
        s.nodes@.len() == state.lease_choice(request).len(),
        forall|i: int|
            0 <= i < s.nodes@.len() ==> (#[trigger] s.nodes@[i])@ == state.lease_choice(request)[i],
        after.nodes == state@.nodes,
        other != s.lease_id@ ==> after.leases.contains_key(other) == state@.leases.contains_key(
            other,
        ) && after.leases[other] == state@.leases[other],
{
    assert(ids(s.nodes@).len() == s.nodes@.len());
    assert forall|i: int| 0 <= i < s.nodes@.len() implies (#[trigger] s.nodes@[i])@
        == state.lease_choice(request)[i] by {
        assert(ids(s.nodes@)[i] == s.nodes@[i]@);
    }
}

/// What clients are told of a lease is what is kept of it.
pub proof fn law_lease_summary_says_what_is_kept(record: LeaseRecord, s: LeaseSummary)
    requires
        record.summed_up(s),
    ensures
        s.lease_id == record.lease_id,
        s.nodes@ == record.nodes@,
        s.gpus_per_node == record.gpus_per_node,
        s.exclusive == record.exclusive,
        s.created_at == record.created_at,
{
}

/// Where an exclusive lease is granted, no later lease is granted on one of its nodes until it is
/// given up.
pub proof fn law_exclusive_lease_keeps_others_out(
    state: CoordinatorState,
    lease_id: Seq<char>,
    request: CreateLeaseRequest,
    i: int,
    j: int,
)
    requires
        state@.leases.contains_key(lease_id),
        state@.leases[lease_id].exclusive,
        0 <= i < request.nodes@.len(),
        0 <= j < state@.leases[lease_id].nodes@.len(),
        request.nodes@[i]@ == state@.leases[lease_id].nodes@[j]@,
    ensures
        !state.grants_lease(request),
{
    law_lease_on_named_nodes(state, request);
    let nodes = ids(request.nodes@);
    assert(nodes[i] == request.nodes@[i]@);
    assert(is_in(nodes[i], state@.leases[lease_id].nodes@));
    assert(is_taken(state@, nodes, request.exclusive));
}

/// Each refusal of a lease is told in its own words.
pub proof fn law_refusal_of_a_lease_is_told(refusal: LeaseRefusal)
    ensures
        match refusal {
            LeaseRefusal::NoNodes => refusal.text()
                == "no connected nodes are available for a lease"@,
            LeaseRefusal::NotConnected(node_id) => refusal.text() == "node "@ + node_id@
                + " is not connected"@,
            LeaseRefusal::Overlap(lease_id) => refusal.text()
                == "requested nodes overlap with active lease "@ + lease_id@,
        },
{
}

} // verus!
