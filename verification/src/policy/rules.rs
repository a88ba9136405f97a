//! Typed governance rules. Each mode reads the policy's JSON rules object under
//! its own schema; a schema that does not match yields that schema's defaults.
//! Numeric thresholds that the JSON carries as doubles are held as IEEE-754 bit
//! patterns (see [`crate::ieee754`]).
use vstd::prelude::*;
use crate::text::owned;

verus! {

// ── Decision Policy Rules ───────────────────────────────────────────

pub struct DecisionPolicyRules {
    pub voting: VotingRules,
    pub objection_handling: ObjectionHandlingRules,
    pub evaluation: EvaluationRules,
    pub commitment: CommitmentRules,
}

pub struct VotingRules {
    pub algorithm: String,
    /// Bits of the approval-ratio threshold (default `0.5`).
    pub threshold_bits: u64,
    pub quorum: QuorumRules,
    /// Voter weights, as (voter, bits of the weight).
    pub weights: Vec<(String, u64)>,
}

/// Quorum rules used inside Decision mode's `voting.quorum`.
pub struct QuorumRules {
    pub quorum_type: String,
    /// Bits of the quorum value (default `0.0`).
    pub value_bits: u64,
}

pub struct ObjectionHandlingRules {
    /// Objections of severity `block` veto the commitment.
    pub block_severity_vetoes: bool,
    pub veto_threshold: u32,
}

pub struct EvaluationRules {
    pub required_before_voting: bool,
    /// Bits of the minimum confidence (default `0.0`).
    pub minimum_confidence_bits: u64,
}

/// Commitment rules shared across all mode policy schemas (RFC-MACP-0012).
pub struct CommitmentRules {
    pub authority: String,
    pub designated_roles: Vec<String>,
    pub require_vote_quorum: bool,
}

// ── Proposal Policy Rules ───────────────────────────────────────────

pub struct ProposalPolicyRules {
    pub acceptance: ProposalAcceptanceRules,
    pub counter_proposal: CounterProposalRules,
    pub rejection: RejectionRules,
    pub commitment: CommitmentRules,
}

pub struct ProposalAcceptanceRules {
    pub criterion: String,
}

pub struct CounterProposalRules {
    pub max_rounds: usize,
}

pub struct RejectionRules {
    pub terminal_on_any_reject: bool,
}

// ── Task Policy Rules ───────────────────────────────────────────────

pub struct TaskPolicyRules {
    pub assignment: TaskAssignmentRules,
    pub completion: TaskCompletionRules,
    pub commitment: CommitmentRules,
}

pub struct TaskAssignmentRules {
    pub allow_reassignment_on_reject: bool,
}

pub struct TaskCompletionRules {
    pub require_output: bool,
}

// ── Handoff Policy Rules ────────────────────────────────────────────

pub struct HandoffPolicyRules {
    pub acceptance: HandoffAcceptanceRules,
    pub commitment: CommitmentRules,
}

pub struct HandoffAcceptanceRules {
    pub implicit_accept_timeout_ms: u64,
}

// ── Quorum Policy Rules ─────────────────────────────────────────────

pub struct QuorumPolicyRules {
    pub threshold: QuorumThreshold,
    pub abstention: AbstentionRules,
    pub commitment: CommitmentRules,
}

/// Threshold rules for Quorum mode (distinct from [`QuorumRules`]).
pub struct QuorumThreshold {
    pub threshold_type: String,
    /// Bits of the threshold value (default `0.0`).
    pub value_bits: u64,
}

pub struct AbstentionRules {
    pub counts_toward_quorum: bool,
    pub interpretation: String,
}

/// A policy's rules object as each schema reads it. Where the object does not
/// match a schema, that schema's field holds the schema's defaults and its
/// `*_error` holds why the object does not match.
pub struct PolicyRules {
    /// The rules value is a JSON object.
    pub is_object: bool,
    pub decision: DecisionPolicyRules,
    pub decision_error: Option<String>,
    pub proposal: ProposalPolicyRules,
    pub proposal_error: Option<String>,
    pub task: TaskPolicyRules,
    pub task_error: Option<String>,
    pub handoff: HandoffPolicyRules,
    pub handoff_error: Option<String>,
    pub quorum: QuorumPolicyRules,
    pub quorum_error: Option<String>,
    /// The `commitment` member (defaults when absent or malformed).
    pub commitment: CommitmentRules,
}

// ── Defaults ────────────────────────────────────────────────────────

pub fn default_algorithm() -> (r: String)
    ensures
        r@ == "none"@,
{
    owned("none")
}

pub fn default_quorum_type() -> (r: String)
    ensures
        r@ == "count"@,
{
    owned("count")
}

pub fn default_veto_threshold() -> (r: u32)
    ensures
        r == 1,
{
    1
}

pub fn default_authority() -> (r: String)
    ensures
        r@ == "initiator_only"@,
{
    owned("initiator_only")
}

pub fn default_acceptance_criterion() -> (r: String)
    ensures
        r@ == "all_parties"@,
{
    owned("all_parties")
}

pub fn default_threshold_type() -> (r: String)
    ensures
        r@ == "n_of_m"@,
{
    owned("n_of_m")
}

pub fn default_interpretation() -> (r: String)
    ensures
        r@ == "neutral"@,
{
    owned("neutral")
}

impl Default for QuorumRules {
    fn default() -> (r: Self)
        ensures
            r.quorum_type@ == "count"@,
            r.value_bits == 0,
    {
        QuorumRules { quorum_type: default_quorum_type(), value_bits: 0 }
    }
}

impl Default for VotingRules {
    fn default() -> (r: Self)
        ensures
            r.algorithm@ == "none"@,
            r.threshold_bits == crate::ieee754::F64_HALF,
            r.quorum.quorum_type@ == "count"@,
            r.quorum.value_bits == 0,
            r.weights@.len() == 0,
    {
        VotingRules {
            algorithm: default_algorithm(),
            threshold_bits: crate::ieee754::F64_HALF,
            quorum: QuorumRules::default(),
            weights: Vec::new(),
        }
    }
}

impl Default for ObjectionHandlingRules {
    fn default() -> (r: Self)
        ensures
            !r.block_severity_vetoes,
            r.veto_threshold == 1,
    {
        ObjectionHandlingRules { block_severity_vetoes: false, veto_threshold: default_veto_threshold() }
    }
}

impl Default for EvaluationRules {
    fn default() -> (r: Self)
        ensures
            !r.required_before_voting,
            r.minimum_confidence_bits == 0,
    {
        EvaluationRules { required_before_voting: false, minimum_confidence_bits: 0 }
    }
}

impl Default for CommitmentRules {
    fn default() -> (r: Self)
        ensures
            r.authority@ == "initiator_only"@,
            r.designated_roles@.len() == 0,
            !r.require_vote_quorum,
    {
        CommitmentRules {
            authority: default_authority(),
            designated_roles: Vec::new(),
            require_vote_quorum: false,
        }
    }
}

impl Default for DecisionPolicyRules {
    fn default() -> (r: Self)
        ensures
            r.voting.algorithm@ == "none"@,
            r.voting.threshold_bits == crate::ieee754::F64_HALF,
            r.voting.quorum.quorum_type@ == "count"@,
            r.voting.quorum.value_bits == 0,
            r.voting.weights@.len() == 0,
            !r.objection_handling.block_severity_vetoes,
            r.objection_handling.veto_threshold == 1,
            !r.evaluation.required_before_voting,
            r.evaluation.minimum_confidence_bits == 0,
            r.commitment.authority@ == "initiator_only"@,
            r.commitment.designated_roles@.len() == 0,
            !r.commitment.require_vote_quorum,
    {
        DecisionPolicyRules {
            voting: VotingRules::default(),
            objection_handling: ObjectionHandlingRules::default(),
            evaluation: EvaluationRules::default(),
            commitment: CommitmentRules::default(),
        }
    }
}

impl Default for ProposalAcceptanceRules {
    fn default() -> (r: Self)
        ensures
            r.criterion@ == "all_parties"@,
    {
        ProposalAcceptanceRules { criterion: default_acceptance_criterion() }
    }
}

impl Default for ProposalPolicyRules {
    fn default() -> (r: Self)
        ensures
            r.acceptance.criterion@ == "all_parties"@,
            r.counter_proposal.max_rounds == 0,
            !r.rejection.terminal_on_any_reject,
            r.commitment.authority@ == "initiator_only"@,
            r.commitment.designated_roles@.len() == 0,
            !r.commitment.require_vote_quorum,
    {
        ProposalPolicyRules {
            acceptance: ProposalAcceptanceRules::default(),
            counter_proposal: CounterProposalRules { max_rounds: 0 },
            rejection: RejectionRules { terminal_on_any_reject: false },
            commitment: CommitmentRules::default(),
        }
    }
}

impl Default for TaskPolicyRules {
    fn default() -> (r: Self)
        ensures
            !r.assignment.allow_reassignment_on_reject,
            !r.completion.require_output,
            r.commitment.authority@ == "initiator_only"@,
            r.commitment.designated_roles@.len() == 0,
            !r.commitment.require_vote_quorum,
    {
        TaskPolicyRules {
            assignment: TaskAssignmentRules { allow_reassignment_on_reject: false },
            completion: TaskCompletionRules { require_output: false },
            commitment: CommitmentRules::default(),
        }
    }
}

impl Default for HandoffPolicyRules {
    fn default() -> (r: Self)
        ensures
            r.acceptance.implicit_accept_timeout_ms == 0,
            r.commitment.authority@ == "initiator_only"@,
            r.commitment.designated_roles@.len() == 0,
            !r.commitment.require_vote_quorum,
    {
        HandoffPolicyRules {
            acceptance: HandoffAcceptanceRules { implicit_accept_timeout_ms: 0 },
            commitment: CommitmentRules::default(),
        }
    }
}

impl Default for QuorumThreshold {
    fn default() -> (r: Self)
        ensures
            r.threshold_type@ == "n_of_m"@,
            r.value_bits == 0,
    {
        QuorumThreshold { threshold_type: default_threshold_type(), value_bits: 0 }
    }
}

impl Default for AbstentionRules {
    fn default() -> (r: Self)
        ensures
            !r.counts_toward_quorum,
            r.interpretation@ == "neutral"@,
    {
        AbstentionRules { counts_toward_quorum: false, interpretation: default_interpretation() }
    }
}

impl Default for QuorumPolicyRules {
    fn default() -> (r: Self)
        ensures
            r.threshold.threshold_type@ == "n_of_m"@,
            r.threshold.value_bits == 0,
            !r.abstention.counts_toward_quorum,
            r.abstention.interpretation@ == "neutral"@,
            r.commitment.authority@ == "initiator_only"@,
            r.commitment.designated_roles@.len() == 0,
            !r.commitment.require_vote_quorum,
    {
        QuorumPolicyRules {
            threshold: QuorumThreshold::default(),
            abstention: AbstentionRules::default(),
            commitment: CommitmentRules::default(),
        }
    }
}


// ── Copies ──────────────────────────────────────────────────────────

fn copy_strings(v: &Vec<String>) -> (r: Vec<String>)
    ensures
        r@ == v@,
{
    let n = v.len();
    let mut out: Vec<String> = Vec::new();
    let mut i: usize = 0;
    while i < n
        invariant
            n == v@.len(),
            i <= n,
            out@ == v@.take(i as int),
        decreases n - i,
    {
        out.push(v[i].clone());
        assert(out@ =~= v@.take(i + 1));
        i = i + 1;
    }
    assert(out@ =~= v@);
    out
}

fn copy_optional(v: &Option<String>) -> (r: Option<String>)
    ensures
        r == *v,
{
    match v {
        Some(s) => Some(s.clone()),
        None => None,
    }
}

/// Equal rules, lists compared by their elements.
pub open spec fn same_commitment(a: CommitmentRules, b: CommitmentRules) -> bool {
    a.authority == b.authority && a.designated_roles@ == b.designated_roles@
        && a.require_vote_quorum == b.require_vote_quorum
}

pub open spec fn same_decision(a: DecisionPolicyRules, b: DecisionPolicyRules) -> bool {
    &&& a.voting.algorithm == b.voting.algorithm
    &&& a.voting.threshold_bits == b.voting.threshold_bits
    &&& a.voting.quorum == b.voting.quorum
    &&& a.voting.weights@ == b.voting.weights@
    &&& a.objection_handling == b.objection_handling
    &&& a.evaluation == b.evaluation
    &&& same_commitment(a.commitment, b.commitment)
}

pub open spec fn same_proposal(a: ProposalPolicyRules, b: ProposalPolicyRules) -> bool {
    &&& a.acceptance == b.acceptance
    &&& a.counter_proposal == b.counter_proposal
    &&& a.rejection == b.rejection
    &&& same_commitment(a.commitment, b.commitment)
}

pub open spec fn same_rules(a: PolicyRules, b: PolicyRules) -> bool {
    &&& a.is_object == b.is_object
    &&& same_decision(a.decision, b.decision)
    &&& a.decision_error == b.decision_error
    &&& same_proposal(a.proposal, b.proposal)
    &&& a.proposal_error == b.proposal_error
    &&& a.task.assignment == b.task.assignment && a.task.completion == b.task.completion
    &&& same_commitment(a.task.commitment, b.task.commitment)
    &&& a.task_error == b.task_error
    &&& a.handoff.acceptance == b.handoff.acceptance
    &&& same_commitment(a.handoff.commitment, b.handoff.commitment)
    &&& a.handoff_error == b.handoff_error
    &&& a.quorum.threshold == b.quorum.threshold && a.quorum.abstention == b.quorum.abstention
    &&& same_commitment(a.quorum.commitment, b.quorum.commitment)
    &&& a.quorum_error == b.quorum_error
    &&& same_commitment(a.commitment, b.commitment)
}

impl CommitmentRules {
    pub fn duplicate(&self) -> (r: Self)
        ensures
            same_commitment(r, *self),
    {
        CommitmentRules {
            authority: self.authority.clone(),
            designated_roles: copy_strings(&self.designated_roles),
            require_vote_quorum: self.require_vote_quorum,
        }
    }
}

impl DecisionPolicyRules {
    pub fn duplicate(&self) -> (r: Self)
        ensures
            same_decision(r, *self),
    {
        let n = self.voting.weights.len();
        let mut weights: Vec<(String, u64)> = Vec::new();
        let mut i: usize = 0;
        while i < n
            invariant
                n == self.voting.weights@.len(),
                i <= n,
                weights@ == self.voting.weights@.take(i as int),
            decreases n - i,
        {
            weights.push((self.voting.weights[i].0.clone(), self.voting.weights[i].1));
            assert(weights@ =~= self.voting.weights@.take(i + 1));
            i = i + 1;
        }
        assert(weights@ =~= self.voting.weights@);
        DecisionPolicyRules {
            voting: VotingRules {
                algorithm: self.voting.algorithm.clone(),
                threshold_bits: self.voting.threshold_bits,
                quorum: QuorumRules {
                    quorum_type: self.voting.quorum.quorum_type.clone(),
                    value_bits: self.voting.quorum.value_bits,
                },
                weights,
            },
            objection_handling: ObjectionHandlingRules {
                block_severity_vetoes: self.objection_handling.block_severity_vetoes,
                veto_threshold: self.objection_handling.veto_threshold,
            },
            evaluation: EvaluationRules {
                required_before_voting: self.evaluation.required_before_voting,
                minimum_confidence_bits: self.evaluation.minimum_confidence_bits,
            },
            commitment: self.commitment.duplicate(),
        }
    }
}

impl PolicyRules {
    pub fn duplicate(&self) -> (r: Self)
        ensures
            same_rules(r, *self),
    {
        PolicyRules {
            is_object: self.is_object,
            decision: self.decision.duplicate(),
            decision_error: copy_optional(&self.decision_error),
            proposal: ProposalPolicyRules {
                acceptance: ProposalAcceptanceRules {
                    criterion: self.proposal.acceptance.criterion.clone(),
                },
                counter_proposal: CounterProposalRules {
                    max_rounds: self.proposal.counter_proposal.max_rounds,
                },
                rejection: RejectionRules {
                    terminal_on_any_reject: self.proposal.rejection.terminal_on_any_reject,
                },
                commitment: self.proposal.commitment.duplicate(),
            },
            proposal_error: copy_optional(&self.proposal_error),
            task: TaskPolicyRules {
                assignment: TaskAssignmentRules {
                    allow_reassignment_on_reject: self.task.assignment.allow_reassignment_on_reject,
                },
                completion: TaskCompletionRules { require_output: self.task.completion.require_output },
                commitment: self.task.commitment.duplicate(),
            },
            task_error: copy_optional(&self.task_error),
            handoff: HandoffPolicyRules {
                acceptance: HandoffAcceptanceRules {
                    implicit_accept_timeout_ms: self.handoff.acceptance.implicit_accept_timeout_ms,
                },
                commitment: self.handoff.commitment.duplicate(),
            },
            handoff_error: copy_optional(&self.handoff_error),
            quorum: QuorumPolicyRules {
                threshold: QuorumThreshold {
                    threshold_type: self.quorum.threshold.threshold_type.clone(),
                    value_bits: self.quorum.threshold.value_bits,
                },
                abstention: AbstentionRules {
                    counts_toward_quorum: self.quorum.abstention.counts_toward_quorum,
                    interpretation: self.quorum.abstention.interpretation.clone(),
                },
                commitment: self.quorum.commitment.duplicate(),
            },
            quorum_error: copy_optional(&self.quorum_error),
            commitment: self.commitment.duplicate(),
        }
    }
}

} // verus!
