use macp_runtime::error::MacpError;
use macp_runtime::keyed::KeyedVec;
use macp_runtime::mode::decision::{DecisionMode, DecisionPhase, DecisionState};
use macp_runtime::mode::{Mode, ModeResponse, PolicyJudgments};
use macp_runtime::pb::{
    CommitmentPayload, DecisionProposalPayload, Envelope, EvaluationPayload, MessagePayload,
    ObjectionPayload, VotePayload,
};
use macp_runtime::session::{ModeState, Session, SessionState};

fn test_session() -> Session {
    Session {
        session_id: "s1".into(),
        state: SessionState::Open,
        ttl_expiry: i64::MAX,
        ttl_ms: 60_000,
        started_at_unix_ms: 0,
        resolution: None,
        mode: "macp.mode.decision.v1".into(),
        mode_state: ModeState::Empty,
        participants: vec![
            "agent://orchestrator".into(),
            "agent://fraud".into(),
            "agent://growth".into(),
        ],
        seen_message_ids: Vec::new(),
        intent: String::new(),
        mode_version: "1.0.0".into(),
        configuration_version: "cfg-1".into(),
        policy_version: "policy-1".into(),
        context: Vec::new(),
        roots: vec![],
        initiator_sender: "agent://orchestrator".into(),
        participant_message_counts: KeyedVec::new(),
        participant_last_seen: KeyedVec::new(),
        policy_definition: None,
    }
}

fn env(sender: &str, message_type: &str) -> Envelope {
    Envelope {
        macp_version: "1.0".into(),
        mode: "macp.mode.decision.v1".into(),
        message_type: message_type.into(),
        message_id: format!("{}-{}", sender, message_type),
        session_id: "s1".into(),
        sender: sender.into(),
        timestamp_unix_ms: 0,
        payload: vec![1],
    }
}

fn proposal(id: &str) -> MessagePayload {
    MessagePayload::DecisionProposal(DecisionProposalPayload {
        proposal_id: id.into(),
        option: format!("option-{id}"),
        rationale: "because".into(),
        supporting_data: vec![],
    })
}

fn vote(id: &str, value: &str) -> MessagePayload {
    MessagePayload::Vote(VotePayload { proposal_id: id.into(), vote: value.into(), reason: String::new() })
}

fn evaluation_with(proposal_id: &str, recommendation: &str, confidence: f64, reason: &str) -> MessagePayload {
    MessagePayload::Evaluation(EvaluationPayload {
        proposal_id: proposal_id.into(),
        recommendation: recommendation.into(),
        confidence_bits: confidence.to_bits(),
        reason: reason.into(),
    })
}

fn evaluation(proposal_id: &str) -> MessagePayload {
    evaluation_with(proposal_id, "APPROVE", 0.9, "good")
}

fn objection_with(proposal_id: &str, severity: &str) -> MessagePayload {
    MessagePayload::Objection(ObjectionPayload {
        proposal_id: proposal_id.into(),
        reason: "risky".into(),
        severity: severity.into(),
    })
}

fn objection(proposal_id: &str) -> MessagePayload {
    objection_with(proposal_id, "high")
}

fn commitment_with(session: &Session, action: &str, mode_version: &str, outcome_positive: bool) -> MessagePayload {
    MessagePayload::Commitment(CommitmentPayload {
        commitment_id: "c1".into(),
        action: action.into(),
        authority_scope: "payments".into(),
        reason: "bound".into(),
        mode_version: mode_version.into(),
        policy_version: session.policy_version.clone(),
        configuration_version: session.configuration_version.clone(),
        outcome_positive,
    })
}

fn commitment(session: &Session) -> MessagePayload {
    let v = session.mode_version.clone();
    commitment_with(session, "decision.selected", &v, true)
}

fn state(session: &Session) -> &DecisionState {
    match &session.mode_state {
        ModeState::Decision(s) => s,
        _ => panic!("no decision state"),
    }
}

fn send(session: &mut Session, sender: &str, message_type: &str, payload: MessagePayload) -> Result<ModeResponse, MacpError> {
    DecisionMode.on_message(session, &env(sender, message_type), payload, &PolicyJudgments::none())
}

fn started() -> Session {
    let mut session = test_session();
    DecisionMode.on_session_start(&mut session, &env("agent://orchestrator", "SessionStart")).unwrap();
    session
}

fn with_proposal() -> Session {
    let mut session = started();
    send(&mut session, "agent://orchestrator", "Proposal", proposal("p1")).unwrap();
    session
}

#[test]
fn session_start_requires_declared_participants() {
    let mut session = test_session();
    session.participants.clear();
    assert_eq!(
        DecisionMode
            .on_session_start(&mut session, &env("agent://orchestrator", "SessionStart"))
            .unwrap_err()
            .to_string(),
        "InvalidPayload"
    );
}

#[test]
fn initiator_not_in_participants_cannot_propose() {
    let mut session = test_session();
    session.participants.retain(|p| p != "agent://orchestrator");
    let err = DecisionMode.authorize_sender(&session, &env("agent://orchestrator", "Proposal")).unwrap_err();
    assert_eq!(err.to_string(), "Forbidden");
}

#[test]
fn vote_with_invalid_value_rejected() {
    let mut session = test_session();
    session.participants.push("agent://orchestrator".to_string());
    DecisionMode.on_session_start(&mut session, &env("agent://orchestrator", "SessionStart")).unwrap();
    send(&mut session, "agent://orchestrator", "Proposal", proposal("p1")).unwrap();
    let err = send(&mut session, "agent://fraud", "Vote", vote("p1", "maybe")).unwrap_err();
    assert_eq!(err.to_string(), "InvalidPayload");
}

#[test]
fn abstain_vote_accepted() {
    let mut session = test_session();
    session.participants.push("agent://orchestrator".to_string());
    DecisionMode.on_session_start(&mut session, &env("agent://orchestrator", "SessionStart")).unwrap();
    send(&mut session, "agent://orchestrator", "Proposal", proposal("p1")).unwrap();
    send(&mut session, "agent://fraud", "Vote", vote("p1", "abstain")).unwrap();
}

#[test]
fn evaluation_with_invalid_recommendation_rejected() {
    let mut session = test_session();
    session.participants.push("agent://orchestrator".to_string());
    DecisionMode.on_session_start(&mut session, &env("agent://orchestrator", "SessionStart")).unwrap();
    send(&mut session, "agent://orchestrator", "Proposal", proposal("p1")).unwrap();
    let err = send(&mut session, "agent://fraud", "Evaluation", evaluation_with("p1", "meh", 0.5, "unclear")).unwrap_err();
    assert_eq!(err.to_string(), "InvalidPayload");
}

#[test]
fn duplicate_proposal_id_is_rejected() {
    let mut session = with_proposal();
    assert_eq!(
        send(&mut session, "agent://fraud", "Proposal", proposal("p1")).unwrap_err().to_string(),
        "InvalidPayload"
    );
}

#[test]
fn vote_is_scoped_per_proposal() {
    let mut session = with_proposal();
    send(&mut session, "agent://fraud", "Proposal", proposal("p2")).unwrap();
    send(&mut session, "agent://fraud", "Vote", vote("p1", "approve")).unwrap();
    send(&mut session, "agent://fraud", "Vote", vote("p2", "approve")).unwrap();
    assert_eq!(
        send(&mut session, "agent://fraud", "Vote", vote("p1", "reject")).unwrap_err().to_string(),
        "InvalidPayload"
    );
}

#[test]
fn evaluation_before_any_proposal_rejected() {
    let mut session = started();
    assert_eq!(
        send(&mut session, "agent://fraud", "Evaluation", evaluation("p1")).unwrap_err().to_string(),
        "InvalidPayload"
    );
}

#[test]
fn objection_before_any_proposal_rejected() {
    let mut session = started();
    assert_eq!(
        send(&mut session, "agent://fraud", "Objection", objection("p1")).unwrap_err().to_string(),
        "InvalidPayload"
    );
}

#[test]
fn vote_before_any_proposal_rejected() {
    let mut session = started();
    assert_eq!(
        send(&mut session, "agent://fraud", "Vote", vote("p1", "approve")).unwrap_err().to_string(),
        "InvalidPayload"
    );
}

#[test]
fn proposal_after_voting_rejected() {
    let mut session = with_proposal();
    send(&mut session, "agent://fraud", "Vote", vote("p1", "approve")).unwrap();
    assert_eq!(
        send(&mut session, "agent://orchestrator", "Proposal", proposal("p2")).unwrap_err().to_string(),
        "InvalidPayload"
    );
}

#[test]
fn evaluation_after_voting_rejected() {
    let mut session = with_proposal();
    send(&mut session, "agent://fraud", "Vote", vote("p1", "approve")).unwrap();
    assert_eq!(
        send(&mut session, "agent://growth", "Evaluation", evaluation("p1")).unwrap_err().to_string(),
        "InvalidPayload"
    );
}

#[test]
fn objection_after_voting_rejected() {
    let mut session = with_proposal();
    send(&mut session, "agent://fraud", "Vote", vote("p1", "approve")).unwrap();
    assert_eq!(
        send(&mut session, "agent://growth", "Objection", objection("p1")).unwrap_err().to_string(),
        "InvalidPayload"
    );
}

#[test]
fn decision_commitment_from_non_initiator_rejected() {
    let session = with_proposal();
    assert_eq!(
        DecisionMode.authorize_sender(&session, &env("agent://fraud", "Commitment")).unwrap_err().to_string(),
        "Forbidden"
    );
}

#[test]
fn decision_empty_proposal_id_rejected() {
    let mut session = started();
    let empty_proposal = MessagePayload::DecisionProposal(DecisionProposalPayload {
        proposal_id: "".into(),
        option: "option".into(),
        rationale: "because".into(),
        supporting_data: vec![],
    });
    assert_eq!(
        send(&mut session, "agent://orchestrator", "Proposal", empty_proposal).unwrap_err().to_string(),
        "InvalidPayload"
    );
}

#[test]
fn malformed_vote_payload_rejected() {
    let mut session = with_proposal();
    assert_eq!(
        send(&mut session, "agent://fraud", "Vote", MessagePayload::Undecodable).unwrap_err().to_string(),
        "InvalidPayload"
    );
}

#[test]
fn phase_advances_from_proposal_to_voting_to_committed() {
    let mut session = started();
    assert_eq!(state(&session).phase, DecisionPhase::Proposal);
    send(&mut session, "agent://orchestrator", "Proposal", proposal("p1")).unwrap();
    assert_eq!(state(&session).phase, DecisionPhase::Evaluation);
    send(&mut session, "agent://fraud", "Vote", vote("p1", "approve")).unwrap();
    assert_eq!(state(&session).phase, DecisionPhase::Voting);
    let c = commitment(&session);
    send(&mut session, "agent://orchestrator", "Commitment", c).unwrap();
    assert_eq!(state(&session).phase, DecisionPhase::Committed);
}

#[test]
fn commitment_versions_must_match_session_bindings() {
    let mut session = with_proposal();
    let bad = commitment_with(&session, "decision.selected", "wrong", true);
    assert_eq!(
        send(&mut session, "agent://orchestrator", "Commitment", bad).unwrap_err().to_string(),
        "InvalidPayload"
    );
    let good = commitment(&session);
    send(&mut session, "agent://orchestrator", "Commitment", good).unwrap();
}

#[test]
fn negative_outcome_commitment_succeeds() {
    let mut session = with_proposal();
    send(&mut session, "agent://fraud", "Vote", vote("p1", "reject")).unwrap();
    let v = session.mode_version.clone();
    let negative = commitment_with(&session, "decision.rejected", &v, false);
    let resp = send(&mut session, "agent://orchestrator", "Commitment", negative).unwrap();
    assert!(matches!(resp, ModeResponse::PersistAndResolve));
    assert_eq!(state(&session).phase, DecisionPhase::Committed);
    assert_eq!(session.state, SessionState::Resolved);
}

#[test]
fn policy_denies_commitment_when_vote_threshold_not_met() {
    let mut session = test_session();
    let mut policy = macp_runtime::policy::defaults::default_policy();
    policy.policy_id = "test-strict".into();
    policy.mode = "macp.mode.decision.v1".into();
    policy.description = "strict".into();
    policy.rules.decision.voting.algorithm = "unanimous".into();
    session.policy_definition = Some(policy);
    DecisionMode.on_session_start(&mut session, &env("agent://orchestrator", "SessionStart")).unwrap();
    send(&mut session, "agent://orchestrator", "Proposal", proposal("p1")).unwrap();
    // Only one of the participants votes approve
    send(&mut session, "agent://fraud", "Vote", vote("p1", "approve")).unwrap();
    // Commitment should be denied by policy (unanimous requires all participants)
    let c = commitment(&session);
    let err = send(&mut session, "agent://orchestrator", "Commitment", c).unwrap_err();
    assert_eq!(err.to_string(), "PolicyDenied");
}

#[test]
fn evaluation_confidence_out_of_bounds_rejected() {
    let mut session = with_proposal();
    assert_eq!(
        send(&mut session, "agent://fraud", "Evaluation", evaluation_with("p1", "APPROVE", 1.5, "too confident"))
            .unwrap_err()
            .to_string(),
        "InvalidPayload"
    );
}

#[test]
fn evaluation_confidence_negative_rejected() {
    let mut session = with_proposal();
    assert_eq!(
        send(&mut session, "agent://fraud", "Evaluation", evaluation_with("p1", "APPROVE", -0.1, "negative"))
            .unwrap_err()
            .to_string(),
        "InvalidPayload"
    );
}

#[test]
fn evaluation_confidence_boundary_accepted() {
    let mut session = with_proposal();
    // confidence=0.0 should be accepted
    send(&mut session, "agent://fraud", "Evaluation", evaluation_with("p1", "APPROVE", 0.0, "zero")).unwrap();
    // confidence=1.0 should be accepted
    send(&mut session, "agent://growth", "Evaluation", evaluation_with("p1", "REVIEW", 1.0, "one")).unwrap();
}

#[test]
fn objection_invalid_severity_rejected() {
    let mut session = with_proposal();
    assert_eq!(
        send(&mut session, "agent://fraud", "Objection", objection_with("p1", "urgent")).unwrap_err().to_string(),
        "InvalidPayload"
    );
}

#[test]
fn objection_valid_severities_accepted() {
    let mut session = with_proposal();
    for severity in &["critical", "high", "medium", "low"] {
        send(&mut session, "agent://fraud", "Objection", objection_with("p1", severity)).unwrap();
    }
}

#[test]
fn objection_severity_case_normalized() {
    let mut session = with_proposal();
    send(&mut session, "agent://fraud", "Objection", objection_with("p1", "CRITICAL")).unwrap();
    assert_eq!(state(&session).objections[0].severity, "critical");
}

#[test]
fn committed_decision_refuses_further_messages() {
    let mut session = with_proposal();
    let c = commitment(&session);
    send(&mut session, "agent://orchestrator", "Commitment", c).unwrap();
    assert_eq!(
        send(&mut session, "agent://fraud", "Vote", vote("p1", "approve")).unwrap_err(),
        MacpError::SessionNotOpen
    );
}

#[test]
fn case_mapped_values_are_checked() {
    assert!(DecisionMode::is_vote_value_exec("APPROVE"));
    assert!(!DecisionMode::is_vote_value_exec("approve"));
    assert!(!DecisionMode::is_vote_value_exec("MAYBE"));
    assert!(DecisionMode::is_recommendation_exec("REVIEW"));
    assert!(!DecisionMode::is_recommendation_exec("ABSTAIN"));
    assert!(DecisionMode::is_severity_exec("critical"));
    assert!(!DecisionMode::is_severity_exec("CRITICAL"));
}
