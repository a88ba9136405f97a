//! The built-in default policy.
use vstd::prelude::*;
use crate::policy::rules::{
    CommitmentRules, DecisionPolicyRules, HandoffPolicyRules, PolicyRules, ProposalPolicyRules,
    QuorumPolicyRules, TaskPolicyRules,
};
use crate::policy::PolicyDefinition;
use crate::text::owned;

verus! {

/// The policy ID reserved for the built-in default policy.
pub const DEFAULT_POLICY_ID: &'static str = "policy.default";

/// Commitment rules with their defaults: the initiator alone commits, with
/// no designated roles and no vote quorum.
pub open spec fn is_default_commitment(c: CommitmentRules) -> bool {
    &&& c.authority@ == "initiator_only"@
    &&& c.designated_roles@.len() == 0
    &&& !c.require_vote_quorum
}

/// What the default policy is: it targets every mode (`"*"`), has schema
/// version 1, and its rules match every mode schema with that schema's
/// defaults (voting algorithm `none`, `initiator_only` commitment authority).
pub open spec fn is_default_policy(p: PolicyDefinition) -> bool {
    &&& p.policy_id@ == "policy.default"@
    &&& p.mode@ == "*"@
    &&& p.schema_version == 1
    &&& p.rules.is_object
    &&& p.rules.decision_error is None && p.rules.proposal_error is None
    &&& p.rules.task_error is None && p.rules.handoff_error is None && p.rules.quorum_error is None
    &&& p.rules.decision.voting.algorithm@ == "none"@
    &&& p.rules.decision.voting.quorum.quorum_type@ == "count"@
    &&& p.rules.decision.voting.quorum.value_bits == 0
    &&& p.rules.decision.voting.weights@.len() == 0
    &&& !p.rules.decision.objection_handling.block_severity_vetoes
    &&& p.rules.decision.objection_handling.veto_threshold == 1
    &&& !p.rules.decision.evaluation.required_before_voting
    &&& p.rules.decision.evaluation.minimum_confidence_bits == 0
    &&& p.rules.decision.voting.threshold_bits == crate::ieee754::F64_HALF
    &&& is_default_commitment(p.rules.decision.commitment)
    &&& is_default_commitment(p.rules.proposal.commitment)
    &&& is_default_commitment(p.rules.task.commitment)
    &&& is_default_commitment(p.rules.handoff.commitment)
    &&& is_default_commitment(p.rules.quorum.commitment)
    &&& is_default_commitment(p.rules.commitment)
    &&& !p.rules.task.assignment.allow_reassignment_on_reject
    &&& p.rules.quorum.threshold.threshold_type@ == "n_of_m"@
    &&& p.rules.proposal.acceptance.criterion@ == "all_parties"@
    &&& p.rules.proposal.counter_proposal.max_rounds == 0
    &&& !p.rules.proposal.rejection.terminal_on_any_reject
    &&& !p.rules.task.completion.require_output
    &&& p.rules.handoff.acceptance.implicit_accept_timeout_ms == 0
    &&& p.rules.quorum.threshold.value_bits == 0
    &&& p.rules.quorum.abstention.interpretation@ == "neutral"@
    &&& !p.rules.quorum.abstention.counts_toward_quorum
}

/// The default policy that ships with every runtime.
///
/// Mode built-in rules apply with no additional governance constraints.
/// This policy uses `"*"` as the mode target, meaning it applies to all modes.
pub fn default_policy() -> (p: PolicyDefinition)
    ensures
        is_default_policy(p),
{
    PolicyDefinition {
        policy_id: owned(DEFAULT_POLICY_ID),
        mode: owned("*"),
        description: owned(
            "Default policy \u{2014} mode built-in rules apply with no additional governance constraints",
        ),
        rules: PolicyRules {
            is_object: true,
            decision: DecisionPolicyRules::default(),
            decision_error: None,
            proposal: ProposalPolicyRules::default(),
            proposal_error: None,
            task: TaskPolicyRules::default(),
            task_error: None,
            handoff: HandoffPolicyRules::default(),
            handoff_error: None,
            quorum: QuorumPolicyRules::default(),
            quorum_error: None,
            commitment: CommitmentRules::default(),
        },
        schema_version: 1,
    }
}

} // verus!
