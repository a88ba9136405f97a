use macp_runtime::policy::defaults::{default_policy, DEFAULT_POLICY_ID};
use macp_runtime::policy::registry::PolicyRegistry;
use macp_runtime::policy::{PolicyDefinition, PolicyError};

fn test_policy(id: &str) -> PolicyDefinition {
    let mut p = default_policy();
    p.policy_id = id.into();
    p.mode = "macp.mode.decision.v1".into();
    p.description = "test policy".into();
    p.rules.decision.voting.algorithm = "majority".into();
    p.rules.decision.voting.threshold_bits = 0.5f64.to_bits();
    p.schema_version = 1;
    p
}

fn policy_for(id: &str, mode: &str, description: &str) -> PolicyDefinition {
    let mut p = default_policy();
    p.policy_id = id.into();
    p.mode = mode.into();
    p.description = description.into();
    p
}

#[test]
fn new_registry_contains_default_policy() {
    let registry = PolicyRegistry::new();
    let default = registry.get(DEFAULT_POLICY_ID);
    assert!(default.is_some());
    assert_eq!(default.unwrap().policy_id, DEFAULT_POLICY_ID);
}

#[test]
fn register_new_policy() {
    let mut registry = PolicyRegistry::new();
    registry.register(test_policy("policy.fraud.strict")).unwrap();
    assert!(registry.get("policy.fraud.strict").is_some());
}

#[test]
fn register_duplicate_fails() {
    let mut registry = PolicyRegistry::new();
    registry.register(test_policy("policy.fraud.strict")).unwrap();
    let err = registry.register(test_policy("policy.fraud.strict")).unwrap_err();
    assert!(err.contains("already registered"));
}

#[test]
fn register_default_policy_id_fails() {
    let mut registry = PolicyRegistry::new();
    let err = registry.register(test_policy(DEFAULT_POLICY_ID)).unwrap_err();
    assert!(err.contains("reserved"));
}

#[test]
fn register_empty_policy_id_fails() {
    let mut registry = PolicyRegistry::new();
    let mut policy = test_policy("valid");
    policy.policy_id = "".into();
    let err = registry.register(policy).unwrap_err();
    assert!(err.contains("must not be empty"));
}

#[test]
fn register_zero_schema_version_fails() {
    let mut registry = PolicyRegistry::new();
    let mut policy = test_policy("policy.bad.schema");
    policy.schema_version = 0;
    let err = registry.register(policy).unwrap_err();
    assert!(err.contains("schema_version"));
}

#[test]
fn register_non_object_rules_fails() {
    let mut registry = PolicyRegistry::new();
    let mut policy = test_policy("policy.bad.rules");
    policy.rules.is_object = false;
    let err = registry.register(policy).unwrap_err();
    assert!(err.contains("JSON object"));
}

#[test]
fn unregister_policy() {
    let mut registry = PolicyRegistry::new();
    registry.register(test_policy("policy.temp")).unwrap();
    assert!(registry.get("policy.temp").is_some());
    registry.unregister("policy.temp").unwrap();
    assert!(registry.get("policy.temp").is_none());
}

#[test]
fn unregister_default_fails() {
    let mut registry = PolicyRegistry::new();
    let err = registry.unregister(DEFAULT_POLICY_ID).unwrap_err();
    assert!(err.contains("default policy"));
}

#[test]
fn unregister_nonexistent_fails() {
    let mut registry = PolicyRegistry::new();
    let err = registry.unregister("nonexistent").unwrap_err();
    assert!(err.contains("not found"));
}

#[test]
fn resolve_empty_returns_default() {
    let registry = PolicyRegistry::new();
    let policy = registry.resolve("").unwrap();
    assert_eq!(policy.policy_id, DEFAULT_POLICY_ID);
}

#[test]
fn resolve_specific_policy() {
    let mut registry = PolicyRegistry::new();
    registry.register(test_policy("policy.fraud.strict")).unwrap();
    let policy = registry.resolve("policy.fraud.strict").unwrap();
    assert_eq!(policy.policy_id, "policy.fraud.strict");
}

#[test]
fn resolve_unknown_returns_error() {
    let registry = PolicyRegistry::new();
    let err = registry.resolve("nonexistent").err().unwrap();
    assert!(matches!(err, PolicyError::UnknownPolicy(_)));
}

#[test]
fn list_all_policies() {
    let mut registry = PolicyRegistry::new();
    registry.register(test_policy("policy.a")).unwrap();
    registry.register(test_policy("policy.b")).unwrap();
    let all = registry.list(None);
    assert_eq!(all.len(), 3); // default + a + b
}

#[test]
fn list_filtered_by_mode() {
    let mut registry = PolicyRegistry::new();
    registry.register(test_policy("policy.decision")).unwrap();
    let mut task_policy = test_policy("policy.task");
    task_policy.mode = "macp.mode.task.v1".into();
    registry.register(task_policy).unwrap();
    let decision_policies = registry.list(Some("macp.mode.decision.v1"));
    // Should include: default (mode="*") + policy.decision (mode matches)
    assert_eq!(decision_policies.len(), 2);
    let task_policies = registry.list(Some("macp.mode.task.v1"));
    // Should include: default (mode="*") + policy.task (mode matches)
    assert_eq!(task_policies.len(), 2);
}

#[test]
fn list_returns_sorted_by_id() {
    let mut registry = PolicyRegistry::new();
    registry.register(test_policy("policy.z")).unwrap();
    registry.register(test_policy("policy.a")).unwrap();
    let all = registry.list(None);
    let ids: Vec<&str> = all.iter().map(|p| p.policy_id.as_str()).collect();
    assert_eq!(ids, vec!["policy.a", "policy.default", "policy.z"]);
}

#[test]
fn register_valid_decision_rules_succeeds() {
    let mut registry = PolicyRegistry::new();
    let mut policy = policy_for("policy.decision.strict", "macp.mode.decision.v1", "strict decision");
    policy.rules.decision.voting.algorithm = "unanimous".into();
    policy.rules.decision.commitment.require_vote_quorum = true;
    registry.register(policy).unwrap();
}

#[test]
fn register_valid_proposal_rules_succeeds() {
    let mut registry = PolicyRegistry::new();
    let mut policy = policy_for("policy.proposal.limited", "macp.mode.proposal.v1", "limited proposals");
    policy.rules.proposal.acceptance.criterion = "all_parties".into();
    policy.rules.proposal.counter_proposal.max_rounds = 3;
    policy.rules.proposal.rejection.terminal_on_any_reject = false;
    registry.register(policy).unwrap();
}

#[test]
fn register_valid_task_rules_succeeds() {
    let mut registry = PolicyRegistry::new();
    let mut policy = policy_for("policy.task.strict", "macp.mode.task.v1", "strict task");
    policy.rules.task.assignment.allow_reassignment_on_reject = false;
    policy.rules.task.completion.require_output = true;
    registry.register(policy).unwrap();
}

#[test]
fn register_valid_handoff_rules_succeeds() {
    let mut registry = PolicyRegistry::new();
    let mut policy = policy_for("policy.handoff.strict", "macp.mode.handoff.v1", "strict handoff");
    policy.rules.handoff.acceptance.implicit_accept_timeout_ms = 5000;
    policy.rules.handoff.commitment.authority = "initiator_only".into();
    registry.register(policy).unwrap();
}

#[test]
fn register_valid_quorum_rules_succeeds() {
    let mut registry = PolicyRegistry::new();
    let mut policy = policy_for("policy.quorum.strict", "macp.mode.quorum.v1", "strict quorum");
    policy.rules.quorum.threshold.threshold_type = "percentage".into();
    policy.rules.quorum.threshold.value_bits = 75.0f64.to_bits();
    policy.rules.quorum.abstention.counts_toward_quorum = false;
    policy.rules.quorum.abstention.interpretation = "neutral".into();
    registry.register(policy).unwrap();
}

#[test]
fn register_extension_mode_accepts_any_rules() {
    let mut registry = PolicyRegistry::new();
    let mut policy = policy_for("policy.custom.ext", "ext.custom.v1", "custom extension");
    // The rules object matches none of the standard schemas.
    policy.rules.decision_error = Some("unknown field `arbitrary_field`".into());
    policy.rules.proposal_error = Some("unknown field `arbitrary_field`".into());
    registry.register(policy).unwrap();
}

#[test]
fn register_weighted_without_weights_fails() {
    let mut registry = PolicyRegistry::new();
    let mut policy = policy_for("test-weighted", "macp.mode.decision.v1", "weighted without weights");
    policy.rules.decision.voting.algorithm = "weighted".into();
    let err = registry.register(policy).unwrap_err();
    assert!(err.contains("weighted"), "error: {err}");
}

#[test]
fn register_supermajority_low_threshold_fails() {
    let mut registry = PolicyRegistry::new();
    let mut policy = policy_for("test-super", "macp.mode.decision.v1", "supermajority with low threshold");
    policy.rules.decision.voting.algorithm = "supermajority".into();
    policy.rules.decision.voting.threshold_bits = 0.4f64.to_bits();
    let err = registry.register(policy).unwrap_err();
    assert!(err.contains("supermajority"), "error: {err}");
}

#[test]
fn register_designated_role_without_roles_fails() {
    let mut registry = PolicyRegistry::new();
    let mut policy = policy_for("test-designated", "macp.mode.decision.v1", "designated_role without roles");
    // The rules' `commitment` member, as every schema reads it.
    policy.rules.commitment.authority = "designated_role".into();
    policy.rules.decision.commitment.authority = "designated_role".into();
    let err = registry.register(policy).unwrap_err();
    assert!(err.contains("designated_role"), "error: {err}");
}

#[test]
fn register_rejects_rules_that_do_not_match_the_mode_schema() {
    let mut registry = PolicyRegistry::new();
    let mut policy = policy_for("policy.bad.task", "macp.mode.task.v1", "bad task rules");
    policy.rules.task_error = Some("invalid type: string, expected a boolean".into());
    assert!(registry.register(policy).is_err());
    assert!(registry.get("policy.bad.task").is_none());
}

#[test]
fn unregister_undoes_register() {
    let mut registry = PolicyRegistry::new();
    let before: Vec<String> = registry.list(None).into_iter().map(|p| p.policy_id).collect();
    registry.register(test_policy("policy.round-trip")).unwrap();
    assert!(registry.get("policy.round-trip").is_some());
    registry.unregister("policy.round-trip").unwrap();
    let after: Vec<String> = registry.list(None).into_iter().map(|p| p.policy_id).collect();
    assert_eq!(before, after);
    assert!(registry.get("policy.round-trip").is_none());
}

#[test]
fn filtered_list_keeps_id_order() {
    let mut registry = PolicyRegistry::new();
    registry.register(test_policy("policy.z")).unwrap();
    registry.register(test_policy("policy.a")).unwrap();
    let ids = |v: Vec<macp_runtime::policy::PolicyDefinition>| v.into_iter().map(|p| p.policy_id).collect::<Vec<_>>();
    assert_eq!(ids(registry.list(Some("macp.mode.decision.v1"))), vec!["policy.a", "policy.default", "policy.z"]);
    assert_eq!(ids(registry.list(Some("macp.mode.task.v1"))), vec!["policy.default"]);
}
