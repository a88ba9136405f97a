use macp_runtime::error::MacpError;
use macp_runtime::ieee754::F64_HALF;
use macp_runtime::policy::rules::{
    DecisionPolicyRules, HandoffPolicyRules, ProposalPolicyRules, QuorumPolicyRules, TaskPolicyRules,
};
use macp_runtime::policy::PolicyError;

#[test]
fn error_code_mapping_covers_all_variants() {
    let cases: Vec<(MacpError, &str)> = vec![
        (MacpError::InvalidMacpVersion, "UNSUPPORTED_PROTOCOL_VERSION"),
        (MacpError::InvalidEnvelope, "INVALID_ENVELOPE"),
        (MacpError::DuplicateSession, "INVALID_ENVELOPE"),
        (MacpError::UnknownSession, "SESSION_NOT_FOUND"),
        (MacpError::SessionNotOpen, "SESSION_NOT_OPEN"),
        (MacpError::TtlExpired, "SESSION_NOT_OPEN"),
        (MacpError::InvalidTtl, "INVALID_ENVELOPE"),
        (MacpError::UnknownMode, "MODE_NOT_SUPPORTED"),
        (MacpError::InvalidModeState, "INVALID_ENVELOPE"),
        (MacpError::InvalidPayload, "INVALID_ENVELOPE"),
        (MacpError::Forbidden, "FORBIDDEN"),
        (MacpError::Unauthenticated, "UNAUTHENTICATED"),
        (MacpError::DuplicateMessage, "DUPLICATE_MESSAGE"),
        (MacpError::PayloadTooLarge, "PAYLOAD_TOO_LARGE"),
        (MacpError::RateLimited, "RATE_LIMITED"),
    ];

    for (error, expected_code) in cases {
        assert_eq!(error.error_code(), expected_code, "error_code() mismatch for {:?}", error);
        assert!(!error.to_string().is_empty());
    }
}

#[test]
fn display_matches_variant_name() {
    assert_eq!(MacpError::InvalidMacpVersion.to_string(), "InvalidMacpVersion");
    assert_eq!(MacpError::Forbidden.to_string(), "Forbidden");
    assert_eq!(MacpError::TtlExpired.to_string(), "TtlExpired");
    assert_eq!(MacpError::Unauthenticated.to_string(), "Unauthenticated");
    assert_eq!(MacpError::DuplicateMessage.to_string(), "DuplicateMessage");
    assert_eq!(MacpError::PayloadTooLarge.to_string(), "PayloadTooLarge");
    assert_eq!(MacpError::RateLimited.to_string(), "RateLimited");
}

#[test]
fn policy_error_display() {
    let e = PolicyError::UnknownPolicy("p1".into());
    assert_eq!(e.to_string(), "unknown policy: p1");

    let e = PolicyError::InvalidDefinition("bad".into());
    assert_eq!(e.to_string(), "invalid policy definition: bad");

    let e = PolicyError::PolicyDenied("nope".into());
    assert_eq!(e.to_string(), "policy denied: nope");
}

#[test]
fn decision_policy_rules_defaults() {
    let rules = DecisionPolicyRules::default();
    assert_eq!(rules.voting.algorithm, "none");
    assert_eq!(f64::from_bits(rules.voting.threshold_bits), 0.5);
    assert_eq!(rules.voting.threshold_bits, F64_HALF);
    assert_eq!(rules.voting.quorum.quorum_type, "count");
    assert!(!rules.objection_handling.block_severity_vetoes);
    assert_eq!(rules.objection_handling.veto_threshold, 1);
    assert!(!rules.evaluation.required_before_voting);
    assert_eq!(f64::from_bits(rules.evaluation.minimum_confidence_bits), 0.0);
    assert_eq!(rules.commitment.authority, "initiator_only");
    assert!(rules.commitment.designated_roles.is_empty());
    assert!(!rules.commitment.require_vote_quorum);
}

#[test]
fn proposal_policy_rules_defaults() {
    let rules = ProposalPolicyRules::default();
    assert_eq!(rules.acceptance.criterion, "all_parties");
    assert_eq!(rules.counter_proposal.max_rounds, 0);
    assert!(!rules.rejection.terminal_on_any_reject);
    assert_eq!(rules.commitment.authority, "initiator_only");
}

#[test]
fn task_policy_rules_defaults() {
    let rules = TaskPolicyRules::default();
    assert!(!rules.assignment.allow_reassignment_on_reject);
    assert!(!rules.completion.require_output);
    assert_eq!(rules.commitment.authority, "initiator_only");
}

#[test]
fn handoff_policy_rules_defaults() {
    let rules = HandoffPolicyRules::default();
    assert_eq!(rules.acceptance.implicit_accept_timeout_ms, 0);
    assert_eq!(rules.commitment.authority, "initiator_only");
}

#[test]
fn quorum_policy_rules_defaults() {
    let rules = QuorumPolicyRules::default();
    assert_eq!(rules.threshold.threshold_type, "n_of_m");
    assert_eq!(f64::from_bits(rules.threshold.value_bits), 0.0);
    assert!(!rules.abstention.counts_toward_quorum);
    assert_eq!(rules.abstention.interpretation, "neutral");
    assert_eq!(rules.commitment.authority, "initiator_only");
}

#[test]
fn default_policy_has_correct_id() {
    let policy = macp_runtime::policy::defaults::default_policy();
    assert_eq!(policy.policy_id, macp_runtime::policy::defaults::DEFAULT_POLICY_ID);
}

#[test]
fn default_policy_applies_to_all_modes() {
    let policy = macp_runtime::policy::defaults::default_policy();
    assert_eq!(policy.mode, "*");
}

#[test]
fn default_policy_rules_are_valid_json() {
    // The default rules object parses under every mode schema.
    let policy = macp_runtime::policy::defaults::default_policy();
    assert!(policy.rules.is_object);
    assert!(policy.rules.decision_error.is_none());
    assert!(policy.rules.proposal_error.is_none());
    assert!(policy.rules.task_error.is_none());
    assert!(policy.rules.handoff_error.is_none());
    assert!(policy.rules.quorum_error.is_none());
}

#[test]
fn default_policy_schema_version_is_one() {
    let policy = macp_runtime::policy::defaults::default_policy();
    assert_eq!(policy.schema_version, 1);
}

#[test]
fn default_policy_voting_algorithm_is_none() {
    let policy = macp_runtime::policy::defaults::default_policy();
    assert_eq!(policy.rules.decision.voting.algorithm, "none");
}

#[test]
fn metrics_snapshot_counts_each_event_once_per_mode() {
    let mut m = macp_runtime::metrics::RuntimeMetrics::new();
    m.record_session_start("macp.mode.task.v1");
    m.record_message_accepted("macp.mode.decision.v1");
    m.record_message_accepted("macp.mode.decision.v1");
    m.record_session_start("macp.mode.decision.v1");
    m.record_commitment_rejected("macp.mode.task.v1");
    let snap = m.snapshot();
    assert_eq!(snap.len(), 2);
    assert_eq!(snap[0].0, "macp.mode.decision.v1");
    assert_eq!(snap[0].1.messages_accepted, 2);
    assert_eq!(snap[0].1.sessions_started, 1);
    assert_eq!(snap[0].1.commitments_rejected, 0);
    assert_eq!(snap[1].0, "macp.mode.task.v1");
    assert_eq!(snap[1].1.sessions_started, 1);
    assert_eq!(snap[1].1.commitments_rejected, 1);
    assert_eq!(m.snapshot().len(), 2);
}
