use macp_runtime::keyed::KeyedVec;
use macp_runtime::mode::decision::{DecisionPhase, DecisionState, Evaluation, Objection, Proposal, Vote};
use macp_runtime::mode::PolicyJudgments;
use macp_runtime::policy::defaults::default_policy;
use macp_runtime::policy::evaluator::{
    evaluate_decision_commitment, evaluate_handoff_commitment, evaluate_proposal_commitment,
    evaluate_quorum_commitment, evaluate_task_commitment,
};
use macp_runtime::policy::{PolicyDecision, PolicyDefinition};

fn make_policy() -> PolicyDefinition {
    let mut p = default_policy();
    p.policy_id = "test-policy".into();
    p.mode = "macp.mode.decision.v1".into();
    p.description = "test".into();
    p.schema_version = 1;
    p
}

fn proposal(id: &str) -> Proposal {
    Proposal {
        proposal_id: id.into(),
        option: "option-1".into(),
        rationale: "reason".into(),
        sender: "initiator".into(),
    }
}

fn make_state_with_votes(vote_entries: Vec<(&str, &str, &str)>) -> DecisionState {
    let mut proposals = KeyedVec::new();
    let mut votes = Vec::new();
    for (proposal_id, voter, vote_value) in &vote_entries {
        if !proposals.contains_key(proposal_id) {
            proposals.insert(proposal_id.to_string(), proposal(proposal_id));
        }
        votes.push(Vote {
            proposal_id: proposal_id.to_string(),
            vote: vote_value.to_string(),
            reason: String::new(),
            sender: voter.to_string(),
        });
    }
    DecisionState {
        proposals,
        evaluations: Vec::new(),
        objections: Vec::new(),
        votes,
        phase: DecisionPhase::Voting,
    }
}

fn participants() -> Vec<String> {
    vec!["agent://fraud".into(), "agent://growth".into(), "agent://compliance".into()]
}

// The floating-point comparisons that the evaluator takes as judgments,
// worked out here with f64 arithmetic from the policy and the votes.
fn check_quorum(quorum_type: &str, value: f64, actual_voters: usize, total_participants: usize) -> bool {
    match quorum_type {
        "percentage" => {
            if total_participants == 0 {
                value <= 0.0
            } else {
                (actual_voters as f64 / total_participants as f64) * 100.0 >= value
            }
        },
        _ => actual_voters as f64 >= value,
    }
}

fn ratio_figures(ratio: f64, threshold: f64, met: bool, what: &str) -> String {
    if met {
        format!("{:.1}% {} (threshold: {:.1}%)", ratio * 100.0, what, threshold * 100.0)
    } else {
        format!("{:.1}% {}, need >= {:.1}%", ratio * 100.0, what, threshold * 100.0)
    }
}

fn decision_judgments(p: &PolicyDefinition, state: &DecisionState, participant_count: usize) -> PolicyJudgments {
    let voting = &p.rules.decision.voting;
    let mut voters: Vec<&str> = state.votes.iter().map(|v| v.sender.as_str()).collect();
    voters.sort();
    voters.dedup();
    let threshold = f64::from_bits(voting.threshold_bits);
    let total = state.votes.len();
    let approve = state.votes.iter().filter(|v| v.vote == "approve").count();
    let (vote_ratio_met, vote_ratio_figures) = if total > 0 {
        let ratio = approve as f64 / total as f64;
        let effective = if voting.algorithm == "supermajority" && !(threshold > 0.5) { 2.0 / 3.0 } else { threshold };
        (ratio >= effective, ratio_figures(ratio, effective, ratio >= effective, "approve"))
    } else {
        (false, String::new())
    };
    let mut weighted_approve = 0.0f64;
    let mut weighted_total = 0.0f64;
    for vote in &state.votes {
        let weight = voting
            .weights
            .iter()
            .find(|(voter, _)| *voter == vote.sender)
            .map(|(_, bits)| f64::from_bits(*bits))
            .unwrap_or(1.0);
        weighted_total += weight;
        if vote.vote == "approve" {
            weighted_approve += weight;
        }
    }
    PolicyJudgments {
        vote_quorum_met: check_quorum(
            &voting.quorum.quorum_type,
            f64::from_bits(voting.quorum.value_bits),
            voters.len(),
            participant_count,
        ),
        vote_ratio_met,
        weighted_ratio_met: if weighted_total == 0.0 { None } else { Some(weighted_approve / weighted_total >= threshold) },
        vote_ratio_figures,
        weighted_ratio_figures: if weighted_total == 0.0 {
            String::new()
        } else {
            let ratio = weighted_approve / weighted_total;
            ratio_figures(ratio, threshold, ratio >= threshold, "weighted approve")
        },
        confidence_figure: format!("{:.2}", f64::from_bits(p.rules.decision.evaluation.minimum_confidence_bits)),
        vote_quorum_figure: format!("{}", f64::from_bits(voting.quorum.value_bits)),
        ..PolicyJudgments::none()
    }
}

fn quorum_judgments(p: &PolicyDefinition, approve: usize, reject: usize, abstain: usize, total: usize) -> PolicyJudgments {
    let rules = &p.rules.quorum;
    let value = f64::from_bits(rules.threshold.value_bits);
    let effective = if rules.abstention.counts_toward_quorum { approve + reject + abstain } else { approve + reject };
    PolicyJudgments {
        percentage_threshold: (value / 100.0 * total as f64).ceil() as u32,
        quorum_threshold_met: check_quorum(&rules.threshold.threshold_type, value, effective, total),
        quorum_threshold_figure: format!("{}", value),
        ..PolicyJudgments::none()
    }
}

fn decide_quorum(p: &PolicyDefinition, approve: usize, reject: usize, abstain: usize, total: usize) -> PolicyDecision {
    evaluate_quorum_commitment(p, approve, reject, abstain, total, &quorum_judgments(p, approve, reject, abstain, total))
}

fn voting(p: &mut PolicyDefinition, algorithm: &str, threshold: Option<f64>) {
    p.rules.decision.voting.algorithm = algorithm.into();
    if let Some(t) = threshold {
        p.rules.decision.voting.threshold_bits = t.to_bits();
    }
}

fn decide(p: &PolicyDefinition, state: &DecisionState) -> PolicyDecision {
    let participants = participants();
    let j = decision_judgments(p, state, participants.len());
    evaluate_decision_commitment(p, state, &participants, &j)
}

#[test]
fn none_algorithm_always_allows() {
    let policy = make_policy();
    let state = make_state_with_votes(vec![]);
    assert!(matches!(decide(&policy, &state), PolicyDecision::Allow { .. }));
}

#[test]
fn majority_passes_with_sufficient_approvals() {
    let mut policy = make_policy();
    voting(&mut policy, "majority", Some(0.5));
    let state = make_state_with_votes(vec![
        ("p1", "agent://fraud", "approve"),
        ("p1", "agent://growth", "approve"),
        ("p1", "agent://compliance", "reject"),
    ]);
    // 2/3 >= 0.5
    assert!(matches!(decide(&policy, &state), PolicyDecision::Allow { .. }));
}

#[test]
fn majority_fails_with_insufficient_approvals() {
    let mut policy = make_policy();
    voting(&mut policy, "majority", Some(0.5));
    let state = make_state_with_votes(vec![
        ("p1", "agent://fraud", "reject"),
        ("p1", "agent://growth", "reject"),
        ("p1", "agent://compliance", "approve"),
    ]);
    // 1/3 < 0.5
    assert!(matches!(decide(&policy, &state), PolicyDecision::Deny { .. }));
}

#[test]
fn majority_passes_on_exact_threshold() {
    let mut policy = make_policy();
    voting(&mut policy, "majority", Some(0.5));
    let state = make_state_with_votes(vec![("p1", "agent://fraud", "approve"), ("p1", "agent://growth", "reject")]);
    // 50% >= 50% passes (threshold comparison uses >=)
    assert!(matches!(decide(&policy, &state), PolicyDecision::Allow { .. }));
}

#[test]
fn supermajority_passes_with_two_thirds() {
    let mut policy = make_policy();
    voting(&mut policy, "supermajority", None);
    let state = make_state_with_votes(vec![
        ("p1", "agent://fraud", "approve"),
        ("p1", "agent://growth", "approve"),
        ("p1", "agent://compliance", "reject"),
    ]);
    // 2/3 = 66.7% >= 66.7%
    assert!(matches!(decide(&policy, &state), PolicyDecision::Allow { .. }));
}

#[test]
fn supermajority_fails_below_threshold() {
    let mut policy = make_policy();
    voting(&mut policy, "supermajority", Some(0.75));
    let state = make_state_with_votes(vec![
        ("p1", "agent://fraud", "approve"),
        ("p1", "agent://growth", "approve"),
        ("p1", "agent://compliance", "reject"),
    ]);
    // 2/3 = 66.7% < 75%
    assert!(matches!(decide(&policy, &state), PolicyDecision::Deny { .. }));
}

#[test]
fn unanimous_passes_when_all_approve() {
    let mut policy = make_policy();
    voting(&mut policy, "unanimous", None);
    let state = make_state_with_votes(vec![
        ("p1", "agent://fraud", "approve"),
        ("p1", "agent://growth", "approve"),
        ("p1", "agent://compliance", "approve"),
    ]);
    assert!(matches!(decide(&policy, &state), PolicyDecision::Allow { .. }));
}

#[test]
fn unanimous_fails_with_any_reject() {
    let mut policy = make_policy();
    voting(&mut policy, "unanimous", None);
    let state = make_state_with_votes(vec![
        ("p1", "agent://fraud", "approve"),
        ("p1", "agent://growth", "approve"),
        ("p1", "agent://compliance", "reject"),
    ]);
    assert!(matches!(decide(&policy, &state), PolicyDecision::Deny { .. }));
}

#[test]
fn unanimous_fails_when_participant_missing() {
    let mut policy = make_policy();
    voting(&mut policy, "unanimous", None);
    let state = make_state_with_votes(vec![
        ("p1", "agent://fraud", "approve"),
        ("p1", "agent://growth", "approve"),
        // compliance didn't vote
    ]);
    let result = decide(&policy, &state);
    match result {
        PolicyDecision::Deny { reasons } => {
            assert_eq!(reasons, vec!["unanimous vote failed: 2 approve, 0 reject out of 3 participants".to_string()])
        },
        _ => panic!("expected Deny"),
    }
}

#[test]
fn weighted_passes_with_heavy_approve() {
    let mut policy = make_policy();
    voting(&mut policy, "weighted", Some(0.5));
    policy.rules.decision.voting.weights = vec![
        ("agent://fraud".into(), 3.0f64.to_bits()),
        ("agent://growth".into(), 1.0f64.to_bits()),
        ("agent://compliance".into(), 1.0f64.to_bits()),
    ];
    // fraud (weight 3) approves, others reject => 3/5 = 60% > 50%
    let state = make_state_with_votes(vec![
        ("p1", "agent://fraud", "approve"),
        ("p1", "agent://growth", "reject"),
        ("p1", "agent://compliance", "reject"),
    ]);
    assert!(matches!(decide(&policy, &state), PolicyDecision::Allow { .. }));
}

#[test]
fn weighted_fails_with_heavy_reject() {
    let mut policy = make_policy();
    voting(&mut policy, "weighted", Some(0.5));
    policy.rules.decision.voting.weights = vec![
        ("agent://fraud".into(), 3.0f64.to_bits()),
        ("agent://growth".into(), 1.0f64.to_bits()),
        ("agent://compliance".into(), 1.0f64.to_bits()),
    ];
    // fraud (weight 3) rejects, others approve => 2/5 = 40% < 50%
    let state = make_state_with_votes(vec![
        ("p1", "agent://fraud", "reject"),
        ("p1", "agent://growth", "approve"),
        ("p1", "agent://compliance", "approve"),
    ]);
    assert!(matches!(decide(&policy, &state), PolicyDecision::Deny { .. }));
}

#[test]
fn plurality_passes_when_approves_exceed_rejects() {
    let mut policy = make_policy();
    voting(&mut policy, "plurality", None);
    let state = make_state_with_votes(vec![
        ("p1", "agent://fraud", "approve"),
        ("p1", "agent://growth", "approve"),
        ("p1", "agent://compliance", "reject"),
    ]);
    assert!(matches!(decide(&policy, &state), PolicyDecision::Allow { .. }));
}

#[test]
fn plurality_fails_on_tie() {
    let mut policy = make_policy();
    voting(&mut policy, "plurality", None);
    let state = make_state_with_votes(vec![("p1", "agent://fraud", "approve"), ("p1", "agent://growth", "reject")]);
    match decide(&policy, &state) {
        PolicyDecision::Deny { reasons } => assert_eq!(reasons, vec!["plurality vote tied: 1 approve vs 1 reject".to_string()]),
        _ => panic!("expected Deny"),
    }
}

fn with_objection(severity: &str) -> DecisionState {
    let mut state = make_state_with_votes(vec![]);
    state.proposals.insert("p1".into(), proposal("p1"));
    state.objections.push(Objection {
        proposal_id: "p1".into(),
        reason: "too risky".into(),
        severity: severity.into(),
        sender: "agent://compliance".into(),
    });
    state
}

#[test]
fn veto_blocks_commitment_when_blocking_objections_reach_threshold() {
    let mut policy = make_policy();
    policy.rules.decision.objection_handling.block_severity_vetoes = true;
    policy.rules.decision.objection_handling.veto_threshold = 1;
    let state = with_objection("block");
    assert!(matches!(decide(&policy, &state), PolicyDecision::Deny { .. }));
}

#[test]
fn veto_allows_when_objections_below_threshold() {
    let mut policy = make_policy();
    policy.rules.decision.objection_handling.block_severity_vetoes = true;
    policy.rules.decision.objection_handling.veto_threshold = 3;
    // Only 1 blocking objection, threshold is 3
    let state = with_objection("block");
    assert!(matches!(decide(&policy, &state), PolicyDecision::Allow { .. }));
}

#[test]
fn veto_ignores_non_blocking_severity_objections() {
    let mut policy = make_policy();
    policy.rules.decision.objection_handling.block_severity_vetoes = true;
    policy.rules.decision.objection_handling.veto_threshold = 1;
    // "high" severity is NOT "block", so it should NOT trigger veto
    let state = with_objection("high");
    assert!(matches!(decide(&policy, &state), PolicyDecision::Allow { .. }));
}

#[test]
fn veto_disabled_ignores_objections() {
    let mut policy = make_policy();
    policy.rules.decision.objection_handling.block_severity_vetoes = false;
    let state = with_objection("critical");
    assert!(matches!(decide(&policy, &state), PolicyDecision::Allow { .. }));
}

fn quorum_policy(quorum_type: &str, value: f64, required: bool) -> PolicyDefinition {
    let mut policy = make_policy();
    voting(&mut policy, "majority", Some(0.5));
    policy.rules.decision.voting.quorum.quorum_type = quorum_type.into();
    policy.rules.decision.voting.quorum.value_bits = value.to_bits();
    policy.rules.decision.commitment.require_vote_quorum = required;
    policy
}

#[test]
fn quorum_count_requirement() {
    let policy = quorum_policy("count", 3.0, true);
    // Only 2 voters, need 3
    let state = make_state_with_votes(vec![("p1", "agent://fraud", "approve"), ("p1", "agent://growth", "approve")]);
    let result = decide(&policy, &state);
    assert!(matches!(result, PolicyDecision::Deny { .. }));
    if let PolicyDecision::Deny { reasons } = &result {
        assert!(reasons.iter().any(|r| r.contains("quorum")));
    }
}

#[test]
fn quorum_percentage_requirement() {
    let policy = quorum_policy("percentage", 100.0, true);
    // Only 2 of 3 voted: 66.7% < 100%
    let state = make_state_with_votes(vec![("p1", "agent://fraud", "approve"), ("p1", "agent://growth", "approve")]);
    assert!(matches!(decide(&policy, &state), PolicyDecision::Deny { .. }));
}

#[test]
fn quorum_not_required_by_default() {
    let policy = quorum_policy("count", 100.0, false);
    let state = make_state_with_votes(vec![("p1", "agent://fraud", "approve"), ("p1", "agent://growth", "approve")]);
    // Quorum not met, but not required => allow (majority is met)
    assert!(matches!(decide(&policy, &state), PolicyDecision::Allow { .. }));
}

fn with_evaluation(confidence: f64) -> DecisionState {
    let mut state = make_state_with_votes(vec![]);
    state.proposals.insert("p1".into(), proposal("p1"));
    state.evaluations.push(Evaluation {
        proposal_id: "p1".into(),
        recommendation: "proceed".into(),
        confidence_bits: confidence.to_bits(),
        reason: "uncertain".into(),
        sender: "agent://fraud".into(),
    });
    state
}

#[test]
fn evaluation_denies_when_below_confidence() {
    let mut policy = make_policy();
    policy.rules.decision.evaluation.required_before_voting = true;
    policy.rules.decision.evaluation.minimum_confidence_bits = 0.8f64.to_bits();
    let state = with_evaluation(0.5);
    assert!(matches!(decide(&policy, &state), PolicyDecision::Deny { .. }));
}

#[test]
fn evaluation_allows_when_meets_confidence() {
    let mut policy = make_policy();
    policy.rules.decision.evaluation.required_before_voting = true;
    policy.rules.decision.evaluation.minimum_confidence_bits = 0.8f64.to_bits();
    let state = with_evaluation(0.9);
    assert!(matches!(decide(&policy, &state), PolicyDecision::Allow { .. }));
}

#[test]
fn evaluation_denies_when_none_provided_but_required() {
    let mut policy = make_policy();
    policy.rules.decision.evaluation.required_before_voting = true;
    policy.rules.decision.evaluation.minimum_confidence_bits = 0.0f64.to_bits();
    let state = make_state_with_votes(vec![]);
    assert!(matches!(decide(&policy, &state), PolicyDecision::Deny { .. }));
}

#[test]
fn default_policy_always_allows() {
    let policy = default_policy();
    let state = make_state_with_votes(vec![]);
    assert!(matches!(decide(&policy, &state), PolicyDecision::Allow { .. }));
}

#[test]
fn no_votes_with_required_quorum_denies() {
    let policy = quorum_policy("count", 1.0, true);
    let state = make_state_with_votes(vec![]);
    assert!(matches!(decide(&policy, &state), PolicyDecision::Deny { .. }));
}

#[test]
fn multiple_deny_reasons_accumulated() {
    let mut policy = quorum_policy("count", 10.0, true);
    policy.rules.decision.objection_handling.block_severity_vetoes = true;
    policy.rules.decision.objection_handling.veto_threshold = 1;
    let mut state = make_state_with_votes(vec![("p1", "agent://fraud", "reject")]);
    state.objections.push(Objection {
        proposal_id: "p1".into(),
        reason: "bad".into(),
        severity: "block".into(),
        sender: "agent://compliance".into(),
    });
    if let PolicyDecision::Deny { reasons } = decide(&policy, &state) {
        // Should have: veto, quorum, and voting threshold failures
        assert!(reasons.len() >= 2);
    } else {
        panic!("expected Deny");
    }
}

#[test]
fn proposal_allows_within_counter_limit() {
    let mut policy = make_policy();
    policy.rules.proposal.counter_proposal.max_rounds = 5;
    assert!(matches!(evaluate_proposal_commitment(&policy, 3), PolicyDecision::Allow { .. }));
}

#[test]
fn proposal_denies_exceeding_counter_limit() {
    let mut policy = make_policy();
    policy.rules.proposal.counter_proposal.max_rounds = 2;
    assert!(matches!(evaluate_proposal_commitment(&policy, 5), PolicyDecision::Deny { .. }));
}

#[test]
fn proposal_zero_limit_allows_any() {
    let mut policy = make_policy();
    policy.rules.proposal.counter_proposal.max_rounds = 0;
    assert!(matches!(evaluate_proposal_commitment(&policy, 100), PolicyDecision::Allow { .. }));
}

#[test]
fn task_allows_when_output_not_required() {
    let mut policy = make_policy();
    policy.rules.task.completion.require_output = false;
    assert!(matches!(evaluate_task_commitment(&policy, false), PolicyDecision::Allow { .. }));
}

#[test]
fn task_allows_when_output_present_and_required() {
    let mut policy = make_policy();
    policy.rules.task.completion.require_output = true;
    assert!(matches!(evaluate_task_commitment(&policy, true), PolicyDecision::Allow { .. }));
}

#[test]
fn task_denies_when_no_output_and_required() {
    let mut policy = make_policy();
    policy.rules.task.completion.require_output = true;
    assert!(matches!(evaluate_task_commitment(&policy, false), PolicyDecision::Deny { .. }));
}

#[test]
fn handoff_always_allows() {
    let mut policy = make_policy();
    policy.rules.handoff.acceptance.implicit_accept_timeout_ms = 5000;
    assert!(matches!(evaluate_handoff_commitment(&policy), PolicyDecision::Allow { .. }));
}

#[test]
fn handoff_allows_with_default_rules() {
    let policy = make_policy();
    assert!(matches!(evaluate_handoff_commitment(&policy), PolicyDecision::Allow { .. }));
}

fn quorum_rules(threshold: Option<f64>, counts: bool, interpretation: &str) -> PolicyDefinition {
    let mut policy = make_policy();
    if let Some(v) = threshold {
        policy.rules.quorum.threshold.threshold_type = "n_of_m".into();
        policy.rules.quorum.threshold.value_bits = v.to_bits();
    }
    policy.rules.quorum.abstention.counts_toward_quorum = counts;
    policy.rules.quorum.abstention.interpretation = interpretation.into();
    policy
}

#[test]
fn quorum_allows_with_abstention_counting_toward_quorum() {
    let policy = quorum_rules(None, true, "neutral");
    assert!(matches!(decide_quorum(&policy, 2, 0, 1, 3), PolicyDecision::Allow { .. }));
}

#[test]
fn quorum_denies_when_threshold_not_met_excluding_abstentions() {
    let policy = quorum_rules(Some(3.0), false, "neutral");
    // 2 approve + 0 reject = 2 effective voters < 3 threshold
    assert!(matches!(decide_quorum(&policy, 2, 0, 1, 5), PolicyDecision::Deny { .. }));
}

#[test]
fn quorum_allows_when_threshold_met_including_abstentions() {
    let policy = quorum_rules(Some(3.0), true, "neutral");
    // 2 approve + 0 reject + 1 abstain = 3 effective voters >= 3 threshold
    assert!(matches!(decide_quorum(&policy, 2, 0, 1, 5), PolicyDecision::Allow { .. }));
}

#[test]
fn quorum_implicit_reject_interpretation() {
    let policy = quorum_rules(None, true, "implicit_reject");
    // Abstentions treated as rejections in the result
    assert!(matches!(decide_quorum(&policy, 2, 0, 1, 3), PolicyDecision::Allow { .. }));
}

#[test]
fn quorum_denies_when_quorum_not_met() {
    let policy = quorum_rules(Some(3.0), true, "neutral");
    assert!(matches!(decide_quorum(&policy, 1, 0, 0, 5), PolicyDecision::Deny { .. }));
}

#[test]
fn quorum_allows_when_quorum_met() {
    let policy = quorum_rules(Some(2.0), true, "neutral");
    assert!(matches!(decide_quorum(&policy, 2, 1, 0, 5), PolicyDecision::Allow { .. }));
}

#[test]
fn default_policy_allows_in_every_mode() {
    let policy = default_policy();
    assert!(!policy.rules.decision.commitment.require_vote_quorum);
    let state = make_state_with_votes(vec![("p1", "agent://fraud", "reject"), ("p1", "agent://growth", "reject")]);
    assert!(matches!(decide(&policy, &state), PolicyDecision::Allow { .. }));
    assert!(matches!(evaluate_proposal_commitment(&policy, 50), PolicyDecision::Allow { .. }));
    assert!(matches!(evaluate_task_commitment(&policy, false), PolicyDecision::Allow { .. }));
    assert!(matches!(evaluate_handoff_commitment(&policy), PolicyDecision::Allow { .. }));
    assert!(matches!(decide_quorum(&policy, 0, 3, 0, 3), PolicyDecision::Allow { .. }));
}

#[test]
fn majority_threshold_comparison_uses_the_policy_threshold() {
    let mut policy = make_policy();
    voting(&mut policy, "majority", Some(0.6));
    // 1/2 = 50% < 60%
    let state = make_state_with_votes(vec![("p1", "agent://fraud", "approve"), ("p1", "agent://growth", "reject")]);
    assert!(matches!(decide(&policy, &state), PolicyDecision::Deny { .. }));
    voting(&mut policy, "majority", Some(0.5));
    assert!(matches!(decide(&policy, &state), PolicyDecision::Allow { .. }));
}

fn reasons(d: PolicyDecision) -> Vec<String> {
    match d {
        PolicyDecision::Allow { reasons } | PolicyDecision::Deny { reasons } => reasons,
    }
}

#[test]
fn ratio_reasons_show_the_figures() {
    let mut policy = make_policy();
    voting(&mut policy, "majority", Some(0.5));
    let state = make_state_with_votes(vec![("p1", "agent://fraud", "approve"), ("p1", "agent://growth", "reject")]);
    assert_eq!(reasons(decide(&policy, &state)), vec!["majority vote passed: 50.0% approve (threshold: 50.0%)".to_string()]);
    voting(&mut policy, "supermajority", Some(0.75));
    assert_eq!(reasons(decide(&policy, &state)), vec!["supermajority vote failed: 50.0% approve, need >= 75.0%".to_string()]);
}

#[test]
fn quorum_and_confidence_reasons_show_the_figures() {
    let policy = quorum_policy("count", 3.0, true);
    let state = make_state_with_votes(vec![("p1", "agent://fraud", "approve"), ("p1", "agent://growth", "approve")]);
    assert_eq!(
        reasons(decide(&policy, &state)),
        vec!["vote quorum not met: 2 voters of 3 participants (quorum: 3 count)".to_string()]
    );
    let mut policy = make_policy();
    policy.rules.decision.evaluation.required_before_voting = true;
    policy.rules.decision.evaluation.minimum_confidence_bits = 0.8f64.to_bits();
    assert_eq!(
        reasons(decide(&policy, &with_evaluation(0.5))),
        vec!["no evaluation meets minimum confidence threshold: 0.80".to_string()]
    );
    let policy = quorum_rules(Some(3.0), false, "neutral");
    assert_eq!(
        reasons(decide_quorum(&policy, 2, 0, 1, 5)),
        vec!["quorum not met: 2 effective voters of 5 participants (threshold: 3 n_of_m)".to_string()]
    );
}
