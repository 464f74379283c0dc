//! Weighted agreement of validator nodes on execution proofs.

use crate::clock::unix_seconds;
use crate::execution_proof::{ExecutionProof, ProofData};
use crate::text::same_text;
use vstd::prelude::*;
use vstd::string::*;

verus! {

/// The verdict of a validator on one agent.
#[derive(Debug, Clone, Copy, PartialEq, Eq, Structural)]
pub enum ConsensusResult {
    Valid,
    Invalid,
    Uncertain,
}

/// The threshold that stands for full agreement: ratios are counted in
/// millionths.
pub const FULL_CONSENSUS: u32 = 1_000_000;

/// The largest weight of a node.
pub const MAX_WEIGHT: u128 = 0xFFFF_FFFF;

/// A node of the roster as mathematical values.
pub struct NodeData {
    pub node_id: Seq<char>,
    pub weight: u32,
    pub last_seen: u64,
}

/// A proof and the node that submitted it.
pub struct SubmissionData {
    pub node_id: Seq<char>,
    pub proof: ProofData,
}

/// A validator as mathematical values: its roster, the proofs it holds and
/// the ratio it asks for, in millionths.
pub struct ValidatorData {
    pub nodes: Seq<NodeData>,
    pub proofs: Seq<SubmissionData>,
    pub required: u32,
}

/// Whether the roster `nodes` holds a node named `id`.
pub open spec fn has_node(nodes: Seq<NodeData>, id: Seq<char>) -> bool {
    exists|i: int| 0 <= i < nodes.len() && (#[trigger] nodes[i]).node_id == id
}

/// The place of the node named `id` in `nodes`, where there is one.
pub open spec fn node_index(nodes: Seq<NodeData>, id: Seq<char>) -> int {
    choose|i: int| 0 <= i < nodes.len() && (#[trigger] nodes[i]).node_id == id
}

/// No two nodes of the roster share a name.
pub open spec fn distinct_nodes(nodes: Seq<NodeData>) -> bool {
    forall|i: int, j: int|
        0 <= i < j < nodes.len() ==> (#[trigger] nodes[i]).node_id != (#[trigger] nodes[j]).node_id
}

/// The weight that the node named `id` has in the roster now: zero for a
/// node that is not in it.
pub open spec fn weight_of(nodes: Seq<NodeData>, id: Seq<char>) -> nat {
    if has_node(nodes, id) {
        nodes[node_index(nodes, id)].weight as nat
    } else {
        0
    }
}

/// The sum of the weights of all nodes of the roster.
pub open spec fn total_weight(nodes: Seq<NodeData>) -> nat
    decreases nodes.len(),
{
    if nodes.len() == 0 {
        0
    } else {
        total_weight(nodes.drop_last()) + nodes.last().weight as nat
    }
}

/// Whether `s` is what `node` submitted for `agent`.
pub open spec fn fills_slot(s: SubmissionData, agent: Seq<char>, node: Seq<char>) -> bool {
    s.proof.agent_id == agent && s.node_id == node
}

/// Whether `proofs` holds a proof that `node` submitted for `agent`.
pub open spec fn has_submission(proofs: Seq<SubmissionData>, agent: Seq<char>, node: Seq<char>)
    -> bool {
    exists|i: int| 0 <= i < proofs.len() && fills_slot(#[trigger] proofs[i], agent, node)
}

/// The place in `proofs` of what `node` submitted for `agent`.
pub open spec fn submission_index(
    proofs: Seq<SubmissionData>,
    agent: Seq<char>,
    node: Seq<char>,
) -> int {
    choose|i: int| 0 <= i < proofs.len() && fills_slot(#[trigger] proofs[i], agent, node)
}

/// Each node holds at most one proof for each agent.
pub open spec fn distinct_submissions(proofs: Seq<SubmissionData>) -> bool {
    forall|i: int, j: int|
        0 <= i < j < proofs.len() ==> !fills_slot(
            #[trigger] proofs[i],
            (#[trigger] proofs[j]).proof.agent_id,
            proofs[j].node_id,
        )
}

/// Whether any proof was submitted for `agent`.
pub open spec fn has_proofs(proofs: Seq<SubmissionData>, agent: Seq<char>) -> bool {
    exists|i: int| 0 <= i < proofs.len() && (#[trigger] proofs[i]).proof.agent_id == agent
}

/// The weight behind the proof hash `hash` for `agent`: the sum, over the
/// nodes that submitted a proof with that hash, of the weight each has in
/// the roster now.
pub open spec fn group_weight(
    proofs: Seq<SubmissionData>,
    nodes: Seq<NodeData>,
    agent: Seq<char>,
    hash: Seq<char>,
) -> nat
    decreases proofs.len(),
{
    if proofs.len() == 0 {
        0
    } else {
        let last = proofs.last();
        let share = if last.proof.agent_id == agent && last.proof.proof_hash == hash {
            weight_of(nodes, last.node_id)
        } else {
            0
        };
        group_weight(proofs.drop_last(), nodes, agent, hash) + share
    }
}

/// The largest weight behind any proof hash among the first `upto` proofs
/// submitted for `agent`. The weight of a hash counts all its submitters,
/// wherever they stand in `proofs`.
pub open spec fn leading_weight_among(
    proofs: Seq<SubmissionData>,
    nodes: Seq<NodeData>,
    agent: Seq<char>,
    upto: nat,
) -> nat
    decreases upto,
{
    if upto == 0 || upto > proofs.len() {
        0
    } else {
        let rest = leading_weight_among(proofs, nodes, agent, (upto - 1) as nat);
        let entry = proofs[upto - 1];
        let here = group_weight(proofs, nodes, agent, entry.proof.proof_hash);
        if entry.proof.agent_id == agent && here > rest {
            here
        } else {
            rest
        }
    }
}

/// The largest weight behind any proof hash submitted for `agent`.
pub open spec fn leading_weight(proofs: Seq<SubmissionData>, nodes: Seq<NodeData>, agent: Seq<char>)
    -> nat {
    leading_weight_among(proofs, nodes, agent, proofs.len())
}

/// A ratio in millionths, brought into the range from nothing to full
/// agreement.
pub open spec fn clamped(ratio: int) -> u32 {
    if ratio < 0 {
        0
    } else if ratio > FULL_CONSENSUS {
        FULL_CONSENSUS
    } else {
        ratio as u32
    }
}

impl ValidatorData {
    /// What holds of every validator.
    pub open spec fn valid(self) -> bool {
        &&& distinct_nodes(self.nodes)
        &&& distinct_submissions(self.proofs)
        &&& self.required <= FULL_CONSENSUS
    }

    /// The validator after the node `id` has joined, or joined again, with
    /// `weight` at the time `seen`.
    pub open spec fn with_node(self, id: Seq<char>, weight: u32, seen: u64) -> ValidatorData {
        let node = NodeData { node_id: id, weight, last_seen: seen };
        ValidatorData {
            nodes: if has_node(self.nodes, id) {
                self.nodes.update(node_index(self.nodes, id), node)
            } else {
                self.nodes.push(node)
            },
            ..self
        }
    }

    /// The validator after the node `id` has left. The proofs stay.
    pub open spec fn without_node(self, id: Seq<char>) -> ValidatorData {
        ValidatorData {
            nodes: if has_node(self.nodes, id) {
                self.nodes.remove(node_index(self.nodes, id))
            } else {
                self.nodes
            },
            ..self
        }
    }

    /// The validator after `node` has submitted `proof` at the time `seen`.
    /// A node that is not in the roster changes nothing.
    pub open spec fn with_proof(self, node: Seq<char>, proof: ProofData, seen: u64)
        -> ValidatorData {
        if has_node(self.nodes, node) {
            let at = node_index(self.nodes, node);
            let entry = SubmissionData { node_id: node, proof };
            ValidatorData {
                nodes: self.nodes.update(at, NodeData { last_seen: seen, ..self.nodes[at] }),
                proofs: if has_submission(self.proofs, proof.agent_id, node) {
                    self.proofs.update(submission_index(self.proofs, proof.agent_id, node), entry)
                } else {
                    self.proofs.push(entry)
                },
                ..self
            }
        } else {
            self
        }
    }

    /// The verdict on `agent`. Without a proof for it, or with a roster
    /// whose weights sum to zero, nothing can be said. Otherwise the
    /// leading weight is held against the sum of all weights: the verdict
    /// is valid where their ratio reaches the required one, invalid where
    /// no submitter carries weight, and uncertain in between.
    pub open spec fn verdict(self, agent: Seq<char>) -> ConsensusResult {
        let total = total_weight(self.nodes);
        let leading = leading_weight(self.proofs, self.nodes, agent);
        if !has_proofs(self.proofs, agent) || total == 0 {
            ConsensusResult::Uncertain
        } else if leading * FULL_CONSENSUS >= self.required * total {
            ConsensusResult::Valid
        } else if leading > 0 {
            ConsensusResult::Uncertain
        } else {
            ConsensusResult::Invalid
        }
    }
}

/// A node that takes part in validation.
#[derive(Debug, Clone)]
pub struct ValidatorNode {
    node_id: String,
    weight: u32,
    last_seen: u64,
}

impl View for ValidatorNode {
    type V = NodeData;

    closed spec fn view(&self) -> NodeData {
        NodeData { node_id: self.node_id@, weight: self.weight, last_seen: self.last_seen }
    }
}

impl ValidatorNode {
    /// A node that was seen just now.
    pub fn new(node_id: &str, weight: u32) -> (node: ValidatorNode)
        ensures
            node@.node_id == node_id@,
            node@.weight == weight,
    {
        ValidatorNode::seen_at(node_id, weight, unix_seconds())
    }

    /// A node that was last seen at `last_seen`.
    pub fn seen_at(node_id: &str, weight: u32, last_seen: u64) -> (node: ValidatorNode)
        ensures
            node@ == (NodeData { node_id: node_id@, weight, last_seen }),
    {
        ValidatorNode { node_id: node_id.to_owned(), weight, last_seen }
    }

    /// Notes that the node was seen just now.
    pub fn update_last_seen(&mut self)
        ensures
            final(self)@.node_id == old(self)@.node_id,
            final(self)@.weight == old(self)@.weight,
    {
        self.mark_seen(unix_seconds());
    }

    /// Notes that the node was seen at `seconds`.
    pub fn mark_seen(&mut self, seconds: u64)
        ensures
            final(self)@ == (NodeData { last_seen: seconds, ..old(self)@ }),
    {
        self.last_seen = seconds;
    }

    /// The node's name.
    pub fn node_id(&self) -> (id: &str)
        ensures
            id@ == self@.node_id,
    {
        self.node_id.as_str()
    }

    /// The node's weight.
    pub fn weight(&self) -> (weight: u32)
        ensures
            weight == self@.weight,
    {
        self.weight
    }

    /// When the node was last seen, in seconds since the Unix epoch.
    pub fn last_seen(&self) -> (seconds: u64)
        ensures
            seconds == self@.last_seen,
    {
        self.last_seen
    }
}

/// A proof held by a validator, with the node that submitted it.
pub struct Submission {
    node_id: String,
    proof: ExecutionProof,
}

impl View for Submission {
    type V = SubmissionData;

    closed spec fn view(&self) -> SubmissionData {
        SubmissionData { node_id: self.node_id@, proof: self.proof@ }
    }
}

/// A roster of weighted nodes and the proofs they submitted.
pub struct ConsensusValidator {
    nodes: Vec<ValidatorNode>,
    proofs: Vec<Submission>,
    required_consensus: u32,
}

impl View for ConsensusValidator {
    type V = ValidatorData;

    closed spec fn view(&self) -> ValidatorData {
        ValidatorData {
            nodes: Seq::new(self.nodes@.len(), |i: int| self.nodes@[i]@),
            proofs: Seq::new(self.proofs@.len(), |i: int| self.proofs@[i]@),
            required: self.required_consensus,
        }
    }
}

/// Brings a ratio in millionths into the range from nothing to full
/// agreement.
pub fn clamp_ratio(ratio: i64) -> (within: u32)
    ensures
        within == clamped(ratio as int),
{
    if ratio < 0 {
        0
    } else if ratio > 1_000_000 {
        FULL_CONSENSUS
    } else {
        ratio as u32
    }
}

impl ConsensusValidator {
    /// What holds of every validator.
    pub open spec fn wf(&self) -> bool {
        self@.valid()
    }

    /// A validator without nodes or proofs. The required ratio is given in
    /// millionths and brought into range.
    pub fn new(required_consensus: i64) -> (validator: ConsensusValidator)
        ensures
            validator.wf(),
            validator@.nodes.len() == 0,
            validator@.proofs.len() == 0,
            validator@.required == clamped(required_consensus as int),
    {
        ConsensusValidator {
            nodes: Vec::new(),
            proofs: Vec::new(),
            required_consensus: clamp_ratio(required_consensus),
        }
    }

    /// Where the node named `node_id` stands in the roster.
    fn find_node(&self, node_id: &str) -> (found: Option<usize>)
        requires
            self.wf(),
        ensures
            found.is_some() == has_node(self@.nodes, node_id@),
            found.is_some() ==> found.unwrap() == node_index(self@.nodes, node_id@),
            found.is_some() ==> found.unwrap() < self.nodes@.len(),
    {
        let mut i: usize = 0;
        while i < self.nodes.len()
            invariant
                self.wf(),
                0 <= i <= self.nodes@.len(),
                forall|j: int| 0 <= j < i ==> (#[trigger] self@.nodes[j]).node_id != node_id@,
            decreases self.nodes@.len() - i,
        {
            if same_text(self.nodes[i].node_id(), node_id) {
                assert(self@.nodes[i as int].node_id == node_id@);
                assert(self@.nodes[node_index(self@.nodes, node_id@)].node_id == node_id@);
                return Some(i);
            }
            i += 1;
        }
        None
    }

    /// Where the proof that `node_id` submitted for `agent_id` stands.
    fn find_submission(&self, agent_id: &str, node_id: &str) -> (found: Option<usize>)
        requires
            self.wf(),
        ensures
            found.is_some() == has_submission(self@.proofs, agent_id@, node_id@),
            found.is_some() ==> found.unwrap() == submission_index(
                self@.proofs,
                agent_id@,
                node_id@,
            ),
            found.is_some() ==> found.unwrap() < self.proofs@.len(),
    {
        let mut i: usize = 0;
        while i < self.proofs.len()
            invariant
                self.wf(),
                0 <= i <= self.proofs@.len(),
                forall|j: int|
                    0 <= j < i ==> !fills_slot(#[trigger] self@.proofs[j], agent_id@, node_id@),
            decreases self.proofs@.len() - i,
        {
            if same_text(self.proofs[i].proof.agent_id(), agent_id) && same_text(
                self.proofs[i].node_id.as_str(),
                node_id,
            ) {
                assert(fills_slot(self@.proofs[i as int], agent_id@, node_id@));
                assert(fills_slot(
                    self@.proofs[submission_index(self@.proofs, agent_id@, node_id@)],
                    agent_id@,
                    node_id@,
                ));
                return Some(i);
            }
            i += 1;
        }
        None
    }

    /// Adds a node that was seen just now, in place of any node of that
    /// name.
    pub fn add_node(&mut self, node_id: &str, weight: u32)
        requires
            old(self).wf(),
        ensures
            final(self).wf(),
            exists|seen: u64| final(self)@ == old(self)@.with_node(node_id@, weight, seen),
    {
        let node = ValidatorNode::new(node_id, weight);
        self.put_node(node);
    }

    /// Adds `node`, in place of any node of that name.
    pub fn put_node(&mut self, node: ValidatorNode)
        requires
            old(self).wf(),
        ensures
            final(self).wf(),
            final(self)@ == old(self)@.with_node(node@.node_id, node@.weight, node@.last_seen),
    {
        let found = self.find_node(node.node_id());
        match found {
            Some(at) => {
                self.nodes[at] = node;
                assert(final(self)@.nodes =~= old(self)@.nodes.update(at as int, node@));
            },
            None => {
                self.nodes.push(node);
                assert(final(self)@.nodes =~= old(self)@.nodes.push(node@));
            },
        }
    }

    /// Removes the node named `node_id` and tells whether there was one.
    /// The proofs that it submitted stay.
    pub fn remove_node(&mut self, node_id: &str) -> (removed: bool)
        requires
            old(self).wf(),
        ensures
            final(self).wf(),
            removed == has_node(old(self)@.nodes, node_id@),
            final(self)@ == old(self)@.without_node(node_id@),
    {
        let found = self.find_node(node_id);
        match found {
            Some(at) => {
                self.nodes.remove(at);
                assert(final(self)@.nodes =~= old(self)@.nodes.remove(at as int));
                true
            },
            None => false,
        }
    }

    /// Takes a proof from a node of the roster, in place of any proof that
    /// the node submitted for the same agent before, and notes that the
    /// node was seen just now. From a node that is not in the roster
    /// nothing is taken: the answer is `false`.
    pub fn add_proof(&mut self, node_id: &str, proof: ExecutionProof) -> (taken: bool)
        requires
            old(self).wf(),
        ensures
            final(self).wf(),
            taken == has_node(old(self)@.nodes, node_id@),
            exists|seen: u64| final(self)@ == old(self)@.with_proof(node_id@, proof@, seen),
    {
        let taken = self.add_proof_at(node_id, proof, unix_seconds());
        taken
    }

    /// Takes a proof as `add_proof` does, at the time `seen`.
    pub fn add_proof_at(&mut self, node_id: &str, proof: ExecutionProof, seen: u64) -> (taken: bool)
        requires
            old(self).wf(),
        ensures
            final(self).wf(),
            taken == has_node(old(self)@.nodes, node_id@),
            final(self)@ == old(self)@.with_proof(node_id@, proof@, seen),
    {
        let found = self.find_node(node_id);
        match found {
            None => false,
            Some(at) => {
                self.nodes[at].mark_seen(seen);
                assert(self@.nodes =~= old(self)@.nodes.update(
                    at as int,
                    NodeData { last_seen: seen, ..old(self)@.nodes[at as int] },
                ));
                assert(self@.proofs =~= old(self)@.proofs);
                let slot = self.find_submission(proof.agent_id(), node_id);
                let ghost entry = SubmissionData { node_id: node_id@, proof: proof@ };
                let submission = Submission { node_id: node_id.to_owned(), proof };
                match slot {
                    Some(place) => {
                        self.proofs[place] = submission;
                        assert(final(self)@.proofs =~= old(self)@.proofs.update(place as int, entry));
                    },
                    None => {
                        self.proofs.push(submission);
                        assert(final(self)@.proofs =~= old(self)@.proofs.push(entry));
                    },
                }
                true
            },
        }
    }

    /// The weight that the node named `node_id` has in the roster now.
    fn current_weight(&self, node_id: &str) -> (weight: u32)
        requires
            self.wf(),
        ensures
            weight == weight_of(self@.nodes, node_id@),
    {
        match self.find_node(node_id) {
            Some(at) => self.nodes[at].weight(),
            None => 0,
        }
    }

    /// The sum of the weights of the roster.
    fn roster_weight(&self) -> (total: u128)
        requires
            self.wf(),
        ensures
            total == total_weight(self@.nodes),
            total <= self.nodes@.len() * MAX_WEIGHT,
    {
        let mut total: u128 = 0;
        let mut i: usize = 0;
        while i < self.nodes.len()
            invariant
                0 <= i <= self.nodes@.len(),
                total == total_weight(self@.nodes.take(i as int)),
                total <= i * MAX_WEIGHT,
            decreases self.nodes@.len() - i,
        {
            assert(self@.nodes.take(i + 1).drop_last() =~= self@.nodes.take(i as int));
            total = total + self.nodes[i].weight() as u128;
            i += 1;
        }
        assert(self@.nodes.take(i as int) =~= self@.nodes);
        total
    }

    /// The weight behind the proof hash `hash` for `agent_id`.
    fn group_weight_of(&self, agent_id: &str, hash: &str) -> (weight: u128)
        requires
            self.wf(),
        ensures
            weight == group_weight(self@.proofs, self@.nodes, agent_id@, hash@),
            weight <= self.proofs@.len() * MAX_WEIGHT,
    {
        let mut weight: u128 = 0;
        let mut i: usize = 0;
        while i < self.proofs.len()
            invariant
                self.wf(),
                0 <= i <= self.proofs@.len(),
                weight == group_weight(self@.proofs.take(i as int), self@.nodes, agent_id@, hash@),
                weight <= i * MAX_WEIGHT,
            decreases self.proofs@.len() - i,
        {
            assert(self@.proofs.take(i + 1).drop_last() =~= self@.proofs.take(i as int));
            let entry = &self.proofs[i];
            if same_text(entry.proof.agent_id(), agent_id) && same_text(entry.proof.proof_hash(), hash) {
                weight = weight + self.current_weight(entry.node_id.as_str()) as u128;
            }
            i += 1;
        }
        assert(self@.proofs.take(i as int) =~= self@.proofs);
        weight
    }

    /// Gives the verdict on `agent_id` from the proofs held for it and the
    /// weights that their submitters have in the roster now.
    pub fn validate(&self, agent_id: &str) -> (result: ConsensusResult)
        requires
            self.wf(),
        ensures
            result == self@.verdict(agent_id@),
    {
        let mut any = false;
        let mut leading: u128 = 0;
        let mut i: usize = 0;
        while i < self.proofs.len()
            invariant
                self.wf(),
                0 <= i <= self.proofs@.len(),
                any == has_proofs(self@.proofs.take(i as int), agent_id@),
                leading == leading_weight_among(self@.proofs, self@.nodes, agent_id@, i as nat),
                leading <= self.proofs@.len() * MAX_WEIGHT,
            decreases self.proofs@.len() - i,
        {
            let entry = &self.proofs[i];
            let ghost before = self@.proofs.take(i as int);
            let ghost after = self@.proofs.take(i + 1);
            assert(after[i as int] == self@.proofs[i as int]);
            assert(forall|j: int| 0 <= j < i ==> before[j] == after[j]);
            if same_text(entry.proof.agent_id(), agent_id) {
                any = true;
                let here = self.group_weight_of(agent_id, entry.proof.proof_hash());
                if here > leading {
                    leading = here;
                }
            } else {
                assert(has_proofs(after, agent_id@) ==> has_proofs(before, agent_id@)) by {
                    if has_proofs(after, agent_id@) {
                        let j = choose|j: int|
                            0 <= j < after.len() && (#[trigger] after[j]).proof.agent_id == agent_id@;
                        assert(before[j].proof.agent_id == agent_id@);
                    }
                }
            }
            i += 1;
        }
        assert(self@.proofs.take(i as int) =~= self@.proofs);
        if !any {
            return ConsensusResult::Uncertain;
        }
        let total = self.roster_weight();
        if total == 0 {
            return ConsensusResult::Uncertain;
        }
        let required = self.required_consensus as u128;
        let roster: usize = self.nodes.len();
        let held: usize = self.proofs.len();
        assert(total <= 0xFFFF_FFFF_FFFF_FFFF * 0xFFFF_FFFF) by (nonlinear_arith)
            requires
                total <= roster * 0xFFFF_FFFF,
                roster <= 0xFFFF_FFFF_FFFF_FFFF,
        ;
        assert(leading <= 0xFFFF_FFFF_FFFF_FFFF * 0xFFFF_FFFF) by (nonlinear_arith)
            requires
                leading <= held * 0xFFFF_FFFF,
                held <= 0xFFFF_FFFF_FFFF_FFFF,
        ;
        assert(required * total <= 1_000_000 * total) by (nonlinear_arith)
            requires
                required <= 1_000_000,
        ;
        if leading * 1_000_000 >= required * total {
            ConsensusResult::Valid
        } else if leading > 0 {
            ConsensusResult::Uncertain
        } else {
            ConsensusResult::Invalid
        }
    }

    /// The nodes of the roster.
    pub fn nodes(&self) -> (nodes: &Vec<ValidatorNode>)
        ensures
            nodes@.len() == self@.nodes.len(),
            forall|i: int| 0 <= i < nodes@.len() ==> (#[trigger] nodes@[i])@ == self@.nodes[i],
    {
        &self.nodes
    }

    /// The required ratio, in millionths.
    pub fn required_consensus(&self) -> (required: u32)
        ensures
            required == self@.required,
    {
        self.required_consensus
    }

    /// Sets the required ratio, given in millionths and brought into range.
    pub fn set_required_consensus(&mut self, consensus: i64)
        ensures
            final(self)@ == (ValidatorData {
                required: clamped(consensus as int),
                ..old(self)@
            }),
    {
        self.required_consensus = clamp_ratio(consensus);
    }
}

/// A node that has left the roster has no weight in it.
pub proof fn lemma_removed_node_weighs_nothing(v: ValidatorData, id: Seq<char>)
    requires
        v.valid(),
    ensures
        v.without_node(id).valid(),
        !has_node(v.without_node(id).nodes, id),
        weight_of(v.without_node(id).nodes, id) == 0,
        v.without_node(id).proofs == v.proofs,
{
    let after = v.without_node(id).nodes;
    if has_node(v.nodes, id) {
        let at = node_index(v.nodes, id);
        assert forall|a: int| 0 <= a < after.len() implies #[trigger] after[a] == v.nodes[if a < at {
            a
        } else {
            a + 1
        }] by {}
        assert forall|a: int| 0 <= a < after.len() implies (#[trigger] after[a]).node_id != id by {
            let a0 = if a < at { a } else { a + 1 };
            assert(after[a] == v.nodes[a0]);
            assert(v.nodes[a0].node_id != v.nodes[at].node_id);
        }
        assert forall|a: int, b: int| 0 <= a < b < after.len() implies (#[trigger] after[a]).node_id
            != (#[trigger] after[b]).node_id by {
            let a0 = if a < at { a } else { a + 1 };
            let b0 = if b < at { b } else { b + 1 };
            assert(after[a] == v.nodes[a0]);
            assert(after[b] == v.nodes[b0]);
        }
    }
}

/// A proof hash whose submitters all weigh nothing has no weight behind it.
pub proof fn lemma_weightless_group(
    proofs: Seq<SubmissionData>,
    nodes: Seq<NodeData>,
    agent: Seq<char>,
    hash: Seq<char>,
)
    requires
        forall|i: int|
            0 <= i < proofs.len() && (#[trigger] proofs[i]).proof.agent_id == agent
                && proofs[i].proof.proof_hash == hash ==> weight_of(nodes, proofs[i].node_id) == 0,
    ensures
        group_weight(proofs, nodes, agent, hash) == 0,
    decreases proofs.len(),
{
    if proofs.len() > 0 {
        let rest = proofs.drop_last();
        assert forall|i: int|
            0 <= i < rest.len() && (#[trigger] rest[i]).proof.agent_id == agent
                && rest[i].proof.proof_hash == hash implies weight_of(nodes, rest[i].node_id)
            == 0 by {
            assert(rest[i] == proofs[i]);
        }
        lemma_weightless_group(rest, nodes, agent, hash);
        assert(proofs.last() == proofs[proofs.len() - 1]);
    }
}

/// When the only node behind a proof hash leaves the roster, no weight is
/// left behind that hash: what the node submitted stays, and counts for
/// nothing.
pub proof fn lemma_lone_submitter_removed(
    v: ValidatorData,
    id: Seq<char>,
    agent: Seq<char>,
    hash: Seq<char>,
)
    requires
        v.valid(),
        forall|i: int|
            0 <= i < v.proofs.len() && (#[trigger] v.proofs[i]).proof.agent_id == agent
                && v.proofs[i].proof.proof_hash == hash ==> v.proofs[i].node_id == id,
    ensures
        group_weight(v.without_node(id).proofs, v.without_node(id).nodes, agent, hash) == 0,
{
    lemma_removed_node_weighs_nothing(v, id);
    lemma_weightless_group(v.proofs, v.without_node(id).nodes, agent, hash);
}

/// The leading weight among the first proofs is the largest weight behind
/// any of their hashes.
pub proof fn lemma_leading_weight_among(
    proofs: Seq<SubmissionData>,
    nodes: Seq<NodeData>,
    agent: Seq<char>,
    upto: nat,
)
    requires
        upto <= proofs.len(),
    ensures
        forall|i: int|
            0 <= i < upto && (#[trigger] proofs[i]).proof.agent_id == agent ==> group_weight(
                proofs,
                nodes,
                agent,
                proofs[i].proof.proof_hash,
            ) <= leading_weight_among(proofs, nodes, agent, upto),
        leading_weight_among(proofs, nodes, agent, upto) == 0 || exists|i: int|
            0 <= i < upto && (#[trigger] proofs[i]).proof.agent_id == agent && group_weight(
                proofs,
                nodes,
                agent,
                proofs[i].proof.proof_hash,
            ) == leading_weight_among(proofs, nodes, agent, upto),
    decreases upto,
{
    if upto > 0 {
        lemma_leading_weight_among(proofs, nodes, agent, (upto - 1) as nat);
        let rest = leading_weight_among(proofs, nodes, agent, (upto - 1) as nat);
        let now = leading_weight_among(proofs, nodes, agent, upto);
        let entry = proofs[upto - 1];
        if now != 0 {
            if entry.proof.agent_id == agent && group_weight(
                proofs,
                nodes,
                agent,
                entry.proof.proof_hash,
            ) > rest {
                assert(proofs[upto - 1].proof.agent_id == agent);
            } else {
                let i = choose|i: int|
                    0 <= i < upto - 1 && (#[trigger] proofs[i]).proof.agent_id == agent
                        && group_weight(proofs, nodes, agent, proofs[i].proof.proof_hash) == rest;
                assert(proofs[i].proof.agent_id == agent);
            }
        }
    }
}

/// The leading weight for an agent is the weight behind one of the proof
/// hashes submitted for it, and no hash submitted for it has more. Which of
/// several hashes of that weight leads does not matter to it.
pub proof fn lemma_leading_weight_is_largest(
    proofs: Seq<SubmissionData>,
    nodes: Seq<NodeData>,
    agent: Seq<char>,
)
    ensures
        forall|i: int|
            0 <= i < proofs.len() && (#[trigger] proofs[i]).proof.agent_id == agent
                ==> group_weight(proofs, nodes, agent, proofs[i].proof.proof_hash)
                <= leading_weight(proofs, nodes, agent),
        has_proofs(proofs, agent) ==> exists|i: int|
            0 <= i < proofs.len() && (#[trigger] proofs[i]).proof.agent_id == agent && group_weight(
                proofs,
                nodes,
                agent,
                proofs[i].proof.proof_hash,
            ) == leading_weight(proofs, nodes, agent),
        !has_proofs(proofs, agent) ==> leading_weight(proofs, nodes, agent) == 0,
{
    lemma_leading_weight_among(proofs, nodes, agent, proofs.len());
    if has_proofs(proofs, agent) && leading_weight(proofs, nodes, agent) == 0 {
        let i = choose|i: int| 0 <= i < proofs.len() && (#[trigger] proofs[i]).proof.agent_id == agent;
        assert(group_weight(proofs, nodes, agent, proofs[i].proof.proof_hash) == 0);
    }
}

} // verus!
