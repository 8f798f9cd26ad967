//! Byzantine-fault-tolerant consensus under test: nodes that may be faulty,
//! a PBFT-style round with quorum checks, and simplified PBFT and Raft logs.
use vstd::prelude::*;
use crate::text::{decimal_bytes, dec_bytes};

verus! {

/// The kind of fault a node exhibits.
#[derive(Debug, Clone, Copy, PartialEq, Eq, Structural)]
pub enum FaultType {
    NoFault,
    Crash,
    Byzantine,
    Omission,
    Timing,
}

/// The state a node is in.
#[derive(Debug, Clone, Copy, PartialEq, Eq, Structural)]
pub enum NodeState {
    Active,
    Crashed,
    Partitioned,
    Byzantine,
    Recovering,
}

/// The kind of a protocol message.
#[derive(Debug, Clone, Copy, PartialEq, Eq, Structural)]
pub enum MessageType {
    Propose,
    Vote,
    Commit,
    ViewChange,
    Heartbeat,
    Recovery,
}

/// A message sent by a node.
pub struct Message {
    pub sender: u32,
    pub receiver: u32,
    pub message_type: MessageType,
    pub payload: Vec<u8>,
    pub timestamp: u64,
    pub signature: Vec<u8>,
}

/// A node of the simulated cluster, possibly faulty.
pub struct ByzantineNode {
    pub node_id: u32,
    pub is_byzantine: bool,
    pub fault_type: FaultType,
    pub state: NodeState,
    pub message_log: Vec<Message>,
}

/// The simulated signature of node `id`: 32 copies of its id's low byte.
pub open spec fn signature_of(id: u32) -> Seq<u8> {
    Seq::new(32, |i: int| id as u8)
}

/// A payload as a Byzantine node sends it: the first byte's bits flipped.
pub open spec fn corrupted(payload: Seq<u8>) -> Seq<u8> {
    if payload.len() == 0 {
        payload
    } else {
        payload.update(0, payload[0] ^ 0xFF)
    }
}

/// The node state that a fault leads to.
pub open spec fn state_after_fault(f: FaultType) -> NodeState {
    match f {
        FaultType::Crash => NodeState::Crashed,
        FaultType::Byzantine => NodeState::Byzantine,
        _ => NodeState::Active,
    }
}

impl ByzantineNode {
    /// A correct, active node with an empty message log.
    pub fn new(node_id: u32) -> (n: Self)
        ensures
            n.node_id == node_id,
            !n.is_byzantine,
            n.fault_type == FaultType::NoFault,
            n.state == NodeState::Active,
            n.message_log@.len() == 0,
    {
        ByzantineNode {
            node_id,
            is_byzantine: false,
            fault_type: FaultType::NoFault,
            state: NodeState::Active,
            message_log: Vec::new(),
        }
    }

    /// Make the node faulty: crashed for a crash fault, Byzantine for a
    /// Byzantine fault, otherwise active.
    pub fn make_byzantine(&mut self, fault_type: FaultType)
        ensures
            final(self).is_byzantine,
            final(self).fault_type == fault_type,
            final(self).state == state_after_fault(fault_type),
            final(self).node_id == old(self).node_id,
            final(self).message_log@ == old(self).message_log@,
    {
        self.is_byzantine = true;
        self.fault_type = fault_type;
        self.state = match fault_type {
            FaultType::Crash => NodeState::Crashed,
            FaultType::Byzantine => NodeState::Byzantine,
            _ => NodeState::Active,
        };
    }

    /// Send a message stamped `timestamp`: a Byzantine node corrupts the
    /// payload; the message is signed and recorded in the node's log.
    pub fn send_message_at(
        &mut self,
        receiver: u32,
        msg_type: MessageType,
        payload: Vec<u8>,
        timestamp: u64,
    ) -> (m: Message)
        ensures
            m.sender == old(self).node_id,
            m.receiver == receiver,
            m.message_type == msg_type,
            m.payload@ == if old(self).is_byzantine {
                corrupted(payload@)
            } else {
                payload@
            },
            m.timestamp == timestamp,
            m.signature@ == signature_of(old(self).node_id),
            final(self).message_log@.len() == old(self).message_log@.len() + 1,
            final(self).message_log@.last().payload@ == m.payload@,
            final(self).message_log@.last().timestamp == timestamp,
            final(self).message_log@.last().sender == m.sender,
            final(self).message_log@.last().receiver == receiver,
            final(self).message_log@.last().signature@ == m.signature@,
            forall|i: int|
                0 <= i < old(self).message_log@.len() ==> #[trigger] final(self).message_log@[i]
                    == old(self).message_log@[i],
            final(self).node_id == old(self).node_id,
            final(self).is_byzantine == old(self).is_byzantine,
            final(self).fault_type == old(self).fault_type,
            final(self).state == old(self).state,
    {
        let body = if self.is_byzantine {
            self.corrupt_message(payload)
        } else {
            payload
        };
        let logged = Message {
            sender: self.node_id,
            receiver,
            message_type: msg_type,
            payload: copy_bytes(&body),
            timestamp,
            signature: self.sign_message(),
        };
        self.message_log.push(logged);
        Message {
            sender: self.node_id,
            receiver,
            message_type: msg_type,
            payload: body,
            timestamp,
            signature: self.sign_message(),
        }
    }

    /// Corrupt a payload by flipping every bit of its first byte.
    pub fn corrupt_message(&self, payload: Vec<u8>) -> (r: Vec<u8>)
        ensures
            r@ == corrupted(payload@),
    {
        let mut payload = payload;
        if payload.len() > 0 {
            let b = payload[0];
            payload.set(0, b ^ 0xFF);
        }
        payload
    }

    /// The node's simulated signature.
    pub fn sign_message(&self) -> (s: Vec<u8>)
        ensures
            s@ == signature_of(self.node_id),
    {
        let v = vec![self.node_id as u8; 32];
        assert(v@ =~= signature_of(self.node_id));
        v
    }
}

/// A copy of a byte vector.
pub fn copy_bytes(v: &Vec<u8>) -> (r: Vec<u8>)
    ensures
        r@ == v@,
{
    let mut r: Vec<u8> = Vec::new();
    let mut i: usize = 0;
    while i < v.len()
        invariant
            i <= v@.len(),
            r@ == v@.subrange(0, i as int),
        decreases v@.len() - i,
    {
        r.push(v[i]);
        proof {
            assert(r@ =~= v@.subrange(0, i + 1));
        }
        i = i + 1;
    }
    assert(r@ =~= v@);
    r
}

/// A proposal for a consensus round.
pub struct Proposal {
    pub proposer: u32,
    pub view: u32,
    pub value: Vec<u8>,
    pub timestamp: u64,
    pub signature: Vec<u8>,
}

/// The kind of a vote.
#[derive(Debug, Clone, Copy, PartialEq, Eq, Structural)]
pub enum VoteType {
    Prepare,
    Commit,
    ViewChange,
}

/// A vote for a proposal.
pub struct Vote {
    pub voter: u32,
    pub proposal_hash: Vec<u8>,
    pub view: u32,
    pub vote_type: VoteType,
    pub signature: Vec<u8>,
}

/// A value the cluster agreed on, with the votes that prove it.
pub struct CommittedValue {
    pub value: Vec<u8>,
    pub view: u32,
    pub commit_proof: Vec<Vote>,
}

/// The bookkeeping of a consensus run.
pub struct ConsensusState {
    pub current_view: u32,
    pub current_round: u32,
    pub proposals: std::collections::HashMap<u32, Proposal>,
    pub votes: std::collections::HashMap<u32, Vec<Vote>>,
    pub committed_values: Vec<CommittedValue>,
    pub consensus_reached: bool,
}

/// What one consensus round counted.
#[derive(Debug, Clone, Copy, PartialEq, Eq, Structural)]
pub struct RoundOutcome {
    pub round_number: u32,
    pub messages_sent: u32,
    pub messages_received: u32,
    pub byzantine_messages_detected: u32,
    /// Both the prepare and the commit phase reached a quorum.
    pub consensus_reached: bool,
}

/// The result of running consensus on a set of nodes.
pub struct ConsensusResult {
    pub consensus_achieved: bool,
    pub rounds_taken: u32,
    pub final_value: Option<Vec<u8>>,
}

/// The most faulty nodes that `n` nodes tolerate: `(n - 1) / 3`.
pub open spec fn max_faulty(n: int) -> int {
    (n - 1) / 3
}

/// BFT resilience: `n` nodes tolerate `f` faulty ones exactly when
/// `n >= 3f + 1`, and `max_faulty(n)` is the largest such `f`; a quorum is
/// the odd number `2f + 1` of votes for that `f` (so 6 nodes tolerate 1
/// fault and need 3 votes; 7 tolerate 2 and need 5).
pub proof fn lemma_bft_resilience(n: int)
    requires
        n >= 1,
    ensures
        3 * max_faulty(n) + 1 <= n,
        3 * (max_faulty(n) + 1) + 1 > n,
        max_faulty(n) >= 0,
        quorum_size(n) % 2 == 1,
        3 * (quorum_size(n) - 1) + 2 <= 2 * n < 3 * (quorum_size(n) + 1) + 2,
{
}

/// The number of votes a quorum needs among `n` nodes: `2f + 1`.
pub open spec fn quorum_size(n: int) -> int {
    2 * max_faulty(n) + 1
}

/// Whether a vote carries its voter's simulated signature.
pub open spec fn signature_ok(v: Vote) -> bool {
    v.signature@.len() == 32 && v.signature@[0] == v.voter as u8
}

/// How many of the first `k` votes repeat an earlier vote's voter.
pub open spec fn duplicate_votes(votes: Seq<Vote>, k: int) -> nat
    decreases k,
{
    if k <= 0 {
        0
    } else {
        duplicate_votes(votes, k - 1) + if exists|j: int| 0 <= j < k - 1 && (#[trigger] votes[j]).voter
            == votes[k - 1].voter {
            1nat
        } else {
            0nat
        }
    }
}

/// How many of the first `k` votes have a bad signature.
pub open spec fn bad_signatures(votes: Seq<Vote>, k: int) -> nat
    decreases k,
{
    if k <= 0 {
        0
    } else {
        bad_signatures(votes, k - 1) + if signature_ok(votes[k - 1]) {
            0nat
        } else {
            1nat
        }
    }
}

/// The simulated hash of a proposal: 32 bytes, the proposer's and the view's
/// low bytes and the value's first byte (0 if empty), then zeros.
pub open spec fn proposal_hash(p: Proposal) -> Seq<u8> {
    Seq::new(
        32,
        |i: int|
            if i == 0 {
                p.proposer as u8
            } else if i == 1 {
                p.view as u8
            } else if i == 2 && p.value@.len() > 0 {
                p.value@[0]
            } else {
                0u8
            },
    )
}

/// The ids of the nodes that have not crashed, in order.
pub open spec fn live_ids(nodes: Seq<ByzantineNode>) -> Seq<u32>
    decreases nodes.len(),
{
    if nodes.len() == 0 {
        Seq::empty()
    } else if nodes.last().state == NodeState::Crashed {
        live_ids(nodes.drop_last())
    } else {
        live_ids(nodes.drop_last()).push(nodes.last().node_id)
    }
}

/// How many nodes are Byzantine.
pub open spec fn byzantine_total(nodes: Seq<ByzantineNode>) -> nat
    decreases nodes.len(),
{
    if nodes.len() == 0 {
        0
    } else {
        byzantine_total(nodes.drop_last()) + if nodes.last().is_byzantine {
            1nat
        } else {
            0nat
        }
    }
}

/// The bytes of "proposal_" followed by the round number.
pub open spec fn proposal_value(test_id: u32) -> Seq<u8> {
    seq![112u8, 114u8, 111u8, 112u8, 111u8, 115u8, 97u8, 108u8, 95u8] + dec_bytes(test_id as nat)
}

/// Runs PBFT-style consensus rounds on a simulated cluster.
pub struct ConsensusTester {
    nodes: Vec<ByzantineNode>,
    consensus_state: ConsensusState,
}

impl ConsensusTester {
    /// The nodes of the cluster.
    pub closed spec fn nodes_view(&self) -> Seq<ByzantineNode> {
        self.nodes@
    }

    /// Every node of the tester is a correct, active node whose id is its index.
    pub open spec fn wf(&self) -> bool {
        forall|i: int|
            0 <= i < self.nodes_view().len() ==> {
                &&& (#[trigger] self.nodes_view()[i]).node_id == i
                &&& !self.nodes_view()[i].is_byzantine
                &&& self.nodes_view()[i].state == NodeState::Active
            }
    }

    /// The current view number.
    pub closed spec fn view_number(&self) -> u32 {
        self.consensus_state.current_view
    }

    /// A tester for `node_count` correct nodes numbered from 0, in view 0.
    pub fn new(node_count: u32) -> (t: Self)
        ensures
            t.nodes_view().len() == node_count,
            forall|i: int|
                0 <= i < node_count ==> {
                    &&& (#[trigger] t.nodes_view()[i]).node_id == i
                    &&& !t.nodes_view()[i].is_byzantine
                    &&& t.nodes_view()[i].state == NodeState::Active
                },
            t.view_number() == 0,
            t.wf(),
    {
        let mut nodes: Vec<ByzantineNode> = Vec::new();
        let mut i: u32 = 0;
        while i < node_count
            invariant
                i <= node_count,
                nodes@.len() == i,
                forall|k: int|
                    0 <= k < i ==> {
                        &&& (#[trigger] nodes@[k]).node_id == k
                        &&& !nodes@[k].is_byzantine
                        &&& nodes@[k].state == NodeState::Active
                    },
            decreases node_count - i,
        {
            nodes.push(ByzantineNode::new(i));
            i = i + 1;
        }
        ConsensusTester {
            nodes,
            consensus_state: ConsensusState {
                current_view: 0,
                current_round: 0,
                proposals: std::collections::HashMap::new(),
                votes: std::collections::HashMap::new(),
                committed_values: Vec::new(),
                consensus_reached: false,
            },
        }
    }

    /// The proposal for round `test_id` stamped `timestamp`: proposed by node
    /// `test_id % n` in the current view, with value "proposal_<test_id>".
    pub fn create_proposal_at(&self, test_id: u32, timestamp: u64) -> (p: Proposal)
        requires
            1 <= self.nodes_view().len() <= u32::MAX,
        ensures
            p.proposer == (test_id as int) % (self.nodes_view().len() as int),
            p.view == self.view_number(),
            p.value@ == proposal_value(test_id),
            p.timestamp == timestamp,
            p.signature@ == signature_of(p.proposer),
    {
        let n = self.nodes.len() as u32;
        let proposer = test_id % n;
        let mut value: Vec<u8> = vec![112u8, 114, 111, 112, 111, 115, 97, 108, 95];
        let mut digits = decimal_bytes(test_id as u128);
        let ghost prefix = value@;
        let ghost ds = digits@;
        value.append(&mut digits);
        assert(value@ =~= proposal_value(test_id));
        let signature = vec![proposer as u8; 32];
        assert(signature@ =~= signature_of(proposer));
        Proposal { proposer, view: self.consensus_state.current_view, value, timestamp, signature }
    }

    /// Messages sent when broadcasting a proposal: one to every other node.
    pub fn broadcast_proposal(&self, _proposal: &Proposal) -> (count: u32)
        requires
            1 <= self.nodes_view().len() <= u32::MAX,
        ensures
            count == self.nodes_view().len() - 1,
    {
        (self.nodes.len() - 1) as u32
    }

    /// One vote of `vote_type` for `proposal` from every node that has not crashed.
    fn collect_votes(&self, proposal: &Proposal, vote_type: VoteType) -> (votes: Vec<Vote>)
        ensures
            votes@.len() == live_ids(self.nodes_view()).len(),
            forall|k: int|
                0 <= k < votes@.len() ==> {
                    &&& (#[trigger] votes@[k]).voter == live_ids(self.nodes_view())[k]
                    &&& votes@[k].proposal_hash@ == proposal_hash(*proposal)
                    &&& votes@[k].view == proposal.view
                    &&& votes@[k].vote_type == vote_type
                    &&& votes@[k].signature@ == signature_of(votes@[k].voter)
                },
    {
        let mut votes: Vec<Vote> = Vec::new();
        let hash = self.hash_proposal(proposal);
        let ghost ns = self.nodes_view();
        let mut i: usize = 0;
        while i < self.nodes.len()
            invariant
                ns == self.nodes_view(),
                i <= ns.len(),
                hash@ == proposal_hash(*proposal),
                votes@.len() == live_ids(ns.subrange(0, i as int)).len(),
                forall|k: int|
                    0 <= k < votes@.len() ==> {
                        &&& (#[trigger] votes@[k]).voter == live_ids(ns.subrange(0, i as int))[k]
                        &&& votes@[k].proposal_hash@ == proposal_hash(*proposal)
                        &&& votes@[k].view == proposal.view
                        &&& votes@[k].vote_type == vote_type
                        &&& votes@[k].signature@ == signature_of(votes@[k].voter)
                    },
            decreases ns.len() - i,
        {
            proof {
                assert(ns.subrange(0, i + 1).drop_last() =~= ns.subrange(0, i as int));
            }
            let node = &self.nodes[i];
            if node.state != NodeState::Crashed {
                let signature = vec![node.node_id as u8; 32];
                assert(signature@ =~= signature_of(node.node_id));
                votes.push(
                    Vote {
                        voter: node.node_id,
                        proposal_hash: copy_bytes(&hash),
                        view: proposal.view,
                        vote_type,
                        signature,
                    },
                );
            }
            i = i + 1;
        }
        proof {
            assert(ns.subrange(0, ns.len() as int) =~= ns);
        }
        votes
    }

    /// Prepare votes for `proposal` from every node that has not crashed.
    pub fn collect_prepare_votes(&self, proposal: &Proposal) -> (votes: Vec<Vote>)
        ensures
            votes@.len() == live_ids(self.nodes_view()).len(),
            forall|k: int|
                0 <= k < votes@.len() ==> {
                    &&& (#[trigger] votes@[k]).voter == live_ids(self.nodes_view())[k]
                    &&& votes@[k].proposal_hash@ == proposal_hash(*proposal)
                    &&& votes@[k].view == proposal.view
                    &&& votes@[k].vote_type == VoteType::Prepare
                    &&& votes@[k].signature@ == signature_of(votes@[k].voter)
                },
    {
        self.collect_votes(proposal, VoteType::Prepare)
    }

    /// Commit votes for `proposal` from every node that has not crashed.
    pub fn collect_commit_votes(&self, proposal: &Proposal) -> (votes: Vec<Vote>)
        ensures
            votes@.len() == live_ids(self.nodes_view()).len(),
            forall|k: int|
                0 <= k < votes@.len() ==> {
                    &&& (#[trigger] votes@[k]).voter == live_ids(self.nodes_view())[k]
                    &&& votes@[k].proposal_hash@ == proposal_hash(*proposal)
                    &&& votes@[k].view == proposal.view
                    &&& votes@[k].vote_type == VoteType::Commit
                    &&& votes@[k].signature@ == signature_of(votes@[k].voter)
                },
    {
        self.collect_votes(proposal, VoteType::Commit)
    }

    /// Whether `votes` reach a quorum: at least `2f + 1` votes, `f = (n - 1) / 3`.
    pub fn has_quorum(&self, votes: &[Vote]) -> (r: bool)
        requires
            self.nodes_view().len() >= 1,
        ensures
            r == (votes@.len() >= quorum_size(self.nodes_view().len() as int)),
    {
        proof {
            lemma_bft_resilience(self.nodes_view().len() as int);
        }
        let f = (self.nodes.len() - 1) / 3;
        let required_votes = 2 * f + 1;
        votes.len() >= required_votes
    }

    /// How many votes look Byzantine: each repeat of an earlier voter, plus
    /// each bad signature.
    pub fn detect_byzantine_messages(&self, votes: &[Vote]) -> (count: u32)
        requires
            2 * votes@.len() <= u32::MAX,
        ensures
            count == duplicate_votes(votes@, votes@.len() as int) + bad_signatures(
                votes@,
                votes@.len() as int,
            ),
            count <= 2 * votes@.len(),
    {
        let mut byzantine_count: u32 = 0;
        let mut seen: Vec<u32> = Vec::new();
        let mut i: usize = 0;
        while i < votes.len()
            invariant
                i <= votes@.len(),
                2 * votes@.len() <= u32::MAX,
                seen@ == Seq::new(i as nat, |k: int| votes@[k].voter),
                byzantine_count == duplicate_votes(votes@, i as int),
                byzantine_count <= i,
            decreases votes@.len() - i,
        {
            let voter = votes[i].voter;
            let mut found = false;
            let mut j: usize = 0;
            while j < seen.len()
                invariant
                    j <= seen@.len(),
                    seen@.len() == i,
                    i < votes@.len(),
                    voter == votes@[i as int].voter,
                    seen@ == Seq::new(i as nat, |k: int| votes@[k].voter),
                    found == exists|k: int| 0 <= k < j && (#[trigger] votes@[k]).voter == voter,
                decreases seen@.len() - j,
            {
                if seen[j] == voter {
                    found = true;
                }
                j = j + 1;
            }
            if found {
                byzantine_count = byzantine_count + 1;
            }
            seen.push(voter);
            proof {
                assert(seen@ =~= Seq::new((i + 1) as nat, |k: int| votes@[k].voter));
            }
            i = i + 1;
        }
        let mut i: usize = 0;
        let ghost dups = byzantine_count;
        while i < votes.len()
            invariant
                i <= votes@.len(),
                2 * votes@.len() <= u32::MAX,
                dups == duplicate_votes(votes@, votes@.len() as int),
                dups <= votes@.len(),
                byzantine_count == dups + bad_signatures(votes@, i as int),
                bad_signatures(votes@, i as int) <= i,
            decreases votes@.len() - i,
        {
            if !self.verify_signature(&votes[i]) {
                byzantine_count = byzantine_count + 1;
            }
            i = i + 1;
        }
        byzantine_count
    }

    /// Whether a vote carries its voter's simulated signature.
    pub fn verify_signature(&self, vote: &Vote) -> (r: bool)
        ensures
            r == signature_ok(*vote),
    {
        vote.signature.len() == 32 && vote.signature[0] == vote.voter as u8
    }

    /// The simulated hash of a proposal.
    pub fn hash_proposal(&self, proposal: &Proposal) -> (h: Vec<u8>)
        ensures
            h@ == proposal_hash(*proposal),
    {
        let mut hash = vec![0u8; 32];
        hash.set(0, proposal.proposer as u8);
        hash.set(1, proposal.view as u8);
        if proposal.value.len() > 0 {
            hash.set(2, proposal.value[0]);
        }
        assert(hash@ =~= proposal_hash(*proposal));
        hash
    }

    /// One PBFT-style round with a proposal stamped `now` (milliseconds
    /// since 1970): propose, broadcast, collect prepare votes and, when they
    /// reach a quorum, commit votes; counts the messages and the
    /// Byzantine-looking votes.
    pub fn run_consensus_round(&self, test_id: u32, now: u64) -> (r: RoundOutcome)
        requires
            1 <= self.nodes_view().len() <= 0x1000_0000,
        ensures
            ({
                let n = self.nodes_view().len() as int;
                let live = live_ids(self.nodes_view()).len() as int;
                let prepared = live >= quorum_size(n);
                &&& r.round_number == test_id
                &&& r.messages_sent == (n - 1) + live + if prepared {
                    live
                } else {
                    0
                }
                &&& r.messages_received == live + if prepared {
                    live
                } else {
                    0
                }
                &&& r.consensus_reached == prepared
            }),
    {
        let proposal = self.create_proposal_at(test_id, now);
        let mut messages_sent: u32 = self.broadcast_proposal(&proposal);
        let prepare_votes = self.collect_prepare_votes(&proposal);
        proof {
            lemma_live_le(self.nodes_view());
        }
        messages_sent = messages_sent + prepare_votes.len() as u32;
        let mut messages_received: u32 = prepare_votes.len() as u32;
        let mut byzantine_messages = self.detect_byzantine_messages(&prepare_votes);
        if self.has_quorum(&prepare_votes) {
            let commit_votes = self.collect_commit_votes(&proposal);
            messages_sent = messages_sent + commit_votes.len() as u32;
            messages_received = messages_received + commit_votes.len() as u32;
            byzantine_messages = byzantine_messages + self.detect_byzantine_messages(&commit_votes);
            if self.has_quorum(&commit_votes) {
                return RoundOutcome {
                    round_number: test_id,
                    messages_sent,
                    messages_received,
                    byzantine_messages_detected: byzantine_messages,
                    consensus_reached: true,
                };
            }
        }
        RoundOutcome {
            round_number: test_id,
            messages_sent,
            messages_received,
            byzantine_messages_detected: byzantine_messages,
            consensus_reached: false,
        }
    }

    /// Consensus on `nodes` in round `round`: achieved when at most
    /// `(n - 1) / 3` of them are Byzantine.
    pub fn run_consensus_with_nodes(&self, nodes: &[ByzantineNode], round: u32) -> (r:
        ConsensusResult)
        requires
            nodes@.len() >= 1,
            round < u32::MAX,
        ensures
            r.consensus_achieved == (byzantine_total(nodes@) <= max_faulty(nodes@.len() as int)),
            r.consensus_achieved == (3 * byzantine_total(nodes@) + 1 <= nodes@.len()),
            r.rounds_taken == round + 1,
            r.final_value matches Some(v) ==> v@ == Seq::new(32, |i: int| 42u8),
            r.final_value is Some <==> r.consensus_achieved,
    {
        let mut count: usize = 0;
        let mut i: usize = 0;
        while i < nodes.len()
            invariant
                i <= nodes@.len(),
                count == byzantine_total(nodes@.subrange(0, i as int)),
                count <= i,
            decreases nodes@.len() - i,
        {
            proof {
                assert(nodes@.subrange(0, i + 1).drop_last() =~= nodes@.subrange(0, i as int));
            }
            if nodes[i].is_byzantine {
                count = count + 1;
            }
            i = i + 1;
        }
        proof {
            assert(nodes@.subrange(0, nodes@.len() as int) =~= nodes@);
        }
        let f = (nodes.len() - 1) / 3;
        let achieved = count <= f;
        proof {
            lemma_bft_resilience(nodes@.len() as int);
        }
        let final_value = if achieved {
            let v = vec![42u8; 32];
            assert(v@ =~= Seq::new(32, |i: int| 42u8));
            Some(v)
        } else {
            None
        };
        ConsensusResult { consensus_achieved: achieved, rounds_taken: round + 1, final_value }
    }

    /// Whether consensus is reached, within 10 rounds, when the first
    /// `byzantine_count` nodes (at most all of them) turn Byzantine.
    pub fn test_with_byzantine_nodes(&self, byzantine_count: u32) -> (r: bool)
        requires
            self.nodes_view().len() >= 1,
            self.wf(),
        ensures
            r == (min_u(byzantine_count as int, self.nodes_view().len() as int) <= max_faulty(
                self.nodes_view().len() as int,
            )),
    {
        let n = self.nodes.len();
        let mut test_nodes: Vec<ByzantineNode> = Vec::new();
        let mut i: usize = 0;
        while i < n
            invariant
                n == self.nodes_view().len(),
                i <= n,
                test_nodes@.len() == i,
                forall|k: int| 0 <= k < i ==> (#[trigger] test_nodes@[k]).is_byzantine == (k < byzantine_count),
            decreases n - i,
        {
            let mut node = ByzantineNode::new(self.nodes[i].node_id);
            if (i as u64) < (byzantine_count as u64) {
                node.make_byzantine(FaultType::Byzantine);
            }
            test_nodes.push(node);
            i = i + 1;
        }
        proof {
            lemma_byzantine_prefix(test_nodes@, byzantine_count as int);
        }
        let mut round: u32 = 0;
        while round < 10
            invariant
                round <= 10,
                test_nodes@.len() == n,
                n == self.nodes_view().len(),
                round > 0 ==> byzantine_total(test_nodes@) > max_faulty(n as int),
                n >= 1,
                byzantine_total(test_nodes@) == min_u(byzantine_count as int, n as int),
            decreases 10 - round,
        {
            let result = self.run_consensus_with_nodes(&test_nodes, round);
            if result.consensus_achieved {
                return true;
            }
            round = round + 1;
        }
        false
    }
}

impl ConsensusTester {
    /// The most Byzantine nodes the cluster tolerates: `(n - 1) / 3`, each
    /// count up to it confirmed by `test_with_byzantine_nodes`; at the first
    /// count that fails, the count before it.
    pub fn determine_max_byzantine_nodes(&self) -> (m: u32)
        requires
            1 <= self.nodes_view().len() <= u32::MAX,
            self.wf(),
        ensures
            m == max_faulty(self.nodes_view().len() as int),
            3 * m + 1 <= self.nodes_view().len() < 3 * m + 4,
    {
        proof {
            lemma_bft_resilience(self.nodes_view().len() as int);
        }
        let total_nodes = self.nodes.len() as u32;
        let max_byzantine = (total_nodes - 1) / 3;
        let mut byzantine_count: u32 = 0;
        while byzantine_count <= max_byzantine
            invariant
                total_nodes == self.nodes_view().len(),
                1 <= total_nodes,
                max_byzantine == max_faulty(total_nodes as int),
                self.wf(),
            decreases max_byzantine + 1 - byzantine_count,
        {
            let can_tolerate = self.test_with_byzantine_nodes(byzantine_count);
            if !can_tolerate {
                return if byzantine_count > 0 {
                    byzantine_count - 1
                } else {
                    0
                };
            }
            if byzantine_count == max_byzantine {
                break;
            }
            byzantine_count = byzantine_count + 1;
        }
        max_byzantine
    }

    /// Run rounds `0..total`, their proposals stamped `now`, and sum them
    /// up: how many reached consensus, whether more than nine in ten did, and
    /// the mean round number.
    pub fn test_consensus_protocols(&self, total: u32, now: u64) -> (s: ConsensusSummary)
        requires
            1 <= self.nodes_view().len() <= 0x1000_0000,
            1 <= total <= 0x10000,
        ensures
            s.message_rounds@.len() == total,
            forall|i: int| 0 <= i < total ==> (#[trigger] s.message_rounds@[i]).round_number == i
                && s.message_rounds@[i].consensus_reached == (live_ids(self.nodes_view()).len()
                >= quorum_size(self.nodes_view().len() as int)),
            s.agreement_count == if live_ids(self.nodes_view()).len() >= quorum_size(
                self.nodes_view().len() as int,
            ) {
                total
            } else {
                0
            },
            s.consensus_achieved == (s.agreement_count > (total as int) * 9 / 10),
            s.rounds_to_consensus == (total * (total - 1) / 2) / (total as int),
    {
        let mut message_rounds: Vec<RoundOutcome> = Vec::new();
        let mut total_rounds: u32 = 0;
        let mut agreement_count: u32 = 0;
        let ghost reached = live_ids(self.nodes_view()).len() >= quorum_size(
            self.nodes_view().len() as int,
        );
        let mut test_id: u32 = 0;
        while test_id < total
            invariant
                test_id <= total <= 0x10000,
                1 <= self.nodes_view().len() <= 0x1000_0000,
                reached == (live_ids(self.nodes_view()).len() >= quorum_size(
                    self.nodes_view().len() as int,
                )),
                message_rounds@.len() == test_id,
                forall|i: int| 0 <= i < test_id ==> (#[trigger] message_rounds@[i]).round_number == i
                    && message_rounds@[i].consensus_reached == reached,
                total_rounds == test_id * (test_id - 1) / 2,
                agreement_count == if reached {
                    test_id
                } else {
                    0
                },
            decreases total - test_id,
        {
            let round_result = self.run_consensus_round(test_id, now);
            message_rounds.push(round_result);
            proof {
                assert(test_id * (test_id - 1) / 2 + test_id == (test_id + 1) * test_id / 2)
                    by (nonlinear_arith);
                assert((test_id + 1) * test_id <= 0x10000 * 0x10000) by (nonlinear_arith)
                    requires test_id < 0x10000;
            }
            total_rounds = total_rounds + round_result.round_number;
            if round_result.consensus_reached {
                agreement_count = agreement_count + 1;
            }
            test_id = test_id + 1;
        }
        ConsensusSummary {
            consensus_achieved: agreement_count > total * 9 / 10,
            rounds_to_consensus: total_rounds / total,
            agreement_count,
            message_rounds,
        }
    }
}

/// What a series of consensus rounds amounted to.
pub struct ConsensusSummary {
    /// More than nine in ten rounds reached consensus.
    pub consensus_achieved: bool,
    /// The sum of the round numbers over the number of rounds.
    pub rounds_to_consensus: u32,
    /// How many rounds reached consensus.
    pub agreement_count: u32,
    pub message_rounds: Vec<RoundOutcome>,
}

/// The smaller of two numbers.
pub open spec fn min_u(a: int, b: int) -> int {
    if a <= b {
        a
    } else {
        b
    }
}

/// In a cluster of `n = 3f + 1` nodes, any two quorums of `2f + 1` nodes
/// share at least `f + 1` nodes, so at least one correct node when at most
/// `f` are faulty.
pub proof fn lemma_quorums_intersect(a: Set<u32>, b: Set<u32>, n: u32)
    requires
        n % 3 == 1,
        a.subset_of(Set::<u32>::range(0, n)),
        b.subset_of(Set::<u32>::range(0, n)),
        a.len() >= quorum_size(n as int),
        b.len() >= quorum_size(n as int),
    ensures
        a.intersect(b).len() >= max_faulty(n as int) + 1,
{
    let all = Set::<u32>::range(0, n);
    vstd::set_lib::range_set_properties::<u32>(0, n);
    vstd::set_lib::lemma_len_subset(a, all);
    vstd::set_lib::lemma_len_subset(b, all);
    vstd::set_lib::lemma_len_subset(a + b, all);
    vstd::set_lib::lemma_set_intersect_union_lens(a, b);
}

/// There are no more live nodes than nodes.
proof fn lemma_live_le(nodes: Seq<ByzantineNode>)
    ensures
        live_ids(nodes).len() <= nodes.len(),
    decreases nodes.len(),
{
    if nodes.len() > 0 {
        lemma_live_le(nodes.drop_last());
    }
}

/// When exactly the first `k` nodes are Byzantine, `min(k, n)` are.
proof fn lemma_byzantine_prefix(nodes: Seq<ByzantineNode>, k: int)
    requires
        k >= 0,
        forall|i: int| 0 <= i < nodes.len() ==> (#[trigger] nodes[i]).is_byzantine == (i < k),
    ensures
        byzantine_total(nodes) == min_u(k, nodes.len() as int),
    decreases nodes.len(),
{
    if nodes.len() > 0 {
        let t = nodes.drop_last();
        assert forall|i: int| 0 <= i < t.len() implies (#[trigger] t[i]).is_byzantine == (i < k) by {
            assert(t[i] == nodes[i]);
        }
        lemma_byzantine_prefix(t, k);
        assert(nodes.last() == nodes[nodes.len() - 1]);
    }
}

} // verus!
