use macp_runtime::error::MacpError;
use macp_runtime::keyed::KeyedVec;
use macp_runtime::mode::handoff::{HandoffDisposition, HandoffMode, HandoffState};
use macp_runtime::mode::{Mode, ModeResponse, PolicyJudgments};
use macp_runtime::pb::{
    CommitmentPayload, Envelope, HandoffAcceptPayload, HandoffContextPayload, HandoffDeclinePayload,
    HandoffOfferPayload, MessagePayload,
};
use macp_runtime::session::{ModeState, Session, SessionState};

fn base_session() -> Session {
    Session {
        session_id: "s1".into(),
        state: SessionState::Open,
        ttl_expiry: i64::MAX,
        ttl_ms: 60_000,
        started_at_unix_ms: 0,
        resolution: None,
        mode: "macp.mode.handoff.v1".into(),
        mode_state: ModeState::Empty,
        participants: vec!["owner".into(), "target".into()],
        seen_message_ids: Vec::new(),
        intent: String::new(),
        mode_version: "1.0.0".into(),
        configuration_version: "config".into(),
        policy_version: "policy".into(),
        context: vec![],
        roots: vec![],
        initiator_sender: "owner".into(),
        participant_message_counts: KeyedVec::new(),
        participant_last_seen: KeyedVec::new(),
        policy_definition: None,
    }
}

fn env(sender: &str, message_type: &str) -> Envelope {
    Envelope {
        macp_version: "1.0".into(),
        mode: "macp.mode.handoff.v1".into(),
        message_type: message_type.into(),
        message_id: format!("{}-{}", sender, message_type),
        session_id: "s1".into(),
        sender: sender.into(),
        timestamp_unix_ms: 0,
        payload: vec![1],
    }
}

fn commitment_with(mode_version: &str) -> MessagePayload {
    MessagePayload::Commitment(CommitmentPayload {
        commitment_id: "c1".into(),
        action: "handoff.accepted".into(),
        authority_scope: "support".into(),
        reason: "accepted".into(),
        mode_version: mode_version.into(),
        policy_version: "policy".into(),
        configuration_version: "config".into(),
        outcome_positive: true,
    })
}

fn commitment_payload() -> MessagePayload {
    commitment_with("1.0.0")
}

fn make_offer(handoff_id: &str, target: &str) -> MessagePayload {
    MessagePayload::HandoffOffer(HandoffOfferPayload {
        handoff_id: handoff_id.into(),
        target_participant: target.into(),
        scope: "support".into(),
        reason: "escalate".into(),
    })
}

fn make_context(handoff_id: &str) -> MessagePayload {
    MessagePayload::HandoffContext(HandoffContextPayload {
        handoff_id: handoff_id.into(),
        content_type: "text/plain".into(),
        context: b"background info".to_vec(),
    })
}

fn make_accept(handoff_id: &str, accepted_by: &str) -> MessagePayload {
    MessagePayload::HandoffAccept(HandoffAcceptPayload {
        handoff_id: handoff_id.into(),
        accepted_by: accepted_by.into(),
        reason: "ready".into(),
    })
}

fn make_decline(handoff_id: &str, declined_by: &str) -> MessagePayload {
    MessagePayload::HandoffDecline(HandoffDeclinePayload {
        handoff_id: handoff_id.into(),
        declined_by: declined_by.into(),
        reason: "busy".into(),
    })
}

fn send(session: &mut Session, sender: &str, message_type: &str, payload: MessagePayload) -> Result<ModeResponse, MacpError> {
    HandoffMode.on_message(session, &env(sender, message_type), payload, &PolicyJudgments::none())
}

fn start(session: &mut Session) {
    HandoffMode.on_session_start(session, &env("owner", "SessionStart")).unwrap();
}

fn state(session: &Session) -> &HandoffState {
    match &session.mode_state {
        ModeState::Handoff(s) => s,
        _ => panic!("no handoff state"),
    }
}

fn offered() -> Session {
    let mut session = base_session();
    start(&mut session);
    send(&mut session, "owner", "HandoffOffer", make_offer("h1", "target")).unwrap();
    session
}

#[test]
fn handoff_session_start_initializes_state() {
    let mut session = base_session();
    let result = HandoffMode.on_session_start(&mut session, &env("owner", "SessionStart")).unwrap();
    assert!(matches!(result, ModeResponse::PersistState));
    assert_eq!(state(&session).offers.len(), 0);
}

#[test]
fn session_start_requires_two_participants() {
    let mut session = base_session();
    session.participants = vec!["owner".into()]; // only 1
    let err = HandoffMode.on_session_start(&mut session, &env("owner", "SessionStart")).unwrap_err();
    assert_eq!(err.to_string(), "InvalidPayload");
}

#[test]
fn handoff_session_start_rejects_when_initiator_not_participant() {
    let mut session = base_session();
    session.participants = vec!["target".into(), "other".into()]; // owner not included
    let err = HandoffMode.on_session_start(&mut session, &env("owner", "SessionStart")).unwrap_err();
    assert_eq!(err.to_string(), "InvalidPayload");
}

#[test]
fn offer_creates_entry() {
    let mut session = base_session();
    start(&mut session);
    let result = send(&mut session, "owner", "HandoffOffer", make_offer("h1", "target")).unwrap();
    assert!(matches!(result, ModeResponse::PersistState));
    let offer = state(&session).offers.get("h1").expect("offer recorded");
    assert_eq!(offer.disposition, HandoffDisposition::Offered);
}

#[test]
fn duplicate_offer_id_rejected() {
    let mut session = offered();
    let err = send(&mut session, "owner", "HandoffOffer", make_offer("h1", "target")).unwrap_err();
    assert_eq!(err.to_string(), "InvalidPayload");
}

#[test]
fn offer_to_self_rejected() {
    let mut session = base_session();
    start(&mut session);
    let err = send(&mut session, "owner", "HandoffOffer", make_offer("h1", "owner")).unwrap_err();
    assert_eq!(err.to_string(), "InvalidPayload");
}

#[test]
fn offer_to_non_participant_rejected() {
    let mut session = base_session();
    start(&mut session);
    let err = send(&mut session, "owner", "HandoffOffer", make_offer("h1", "outsider")).unwrap_err();
    assert_eq!(err.to_string(), "InvalidPayload");
}

#[test]
fn context_for_existing_offer() {
    let mut session = offered();
    let result = send(&mut session, "owner", "HandoffContext", make_context("h1")).unwrap();
    assert!(matches!(result, ModeResponse::PersistState));
    assert_eq!(state(&session).contexts.get("h1").expect("contexts").len(), 1);
}

#[test]
fn context_from_non_offerer_rejected() {
    let mut session = offered();
    let err = send(&mut session, "target", "HandoffContext", make_context("h1")).unwrap_err();
    assert_eq!(err.to_string(), "Forbidden");
}

#[test]
fn target_can_accept() {
    let mut session = offered();
    let result = send(&mut session, "target", "HandoffAccept", make_accept("h1", "target")).unwrap();
    assert!(matches!(result, ModeResponse::PersistState));
    assert_eq!(state(&session).offers.get("h1").unwrap().disposition, HandoffDisposition::Accepted);
}

#[test]
fn wrong_target_cannot_accept() {
    let mut session = offered();
    let err = send(&mut session, "owner", "HandoffAccept", make_accept("h1", "owner")).unwrap_err();
    assert_eq!(err.to_string(), "Forbidden");
}

#[test]
fn target_can_decline() {
    let mut session = offered();
    let result = send(&mut session, "target", "HandoffDecline", make_decline("h1", "target")).unwrap();
    assert!(matches!(result, ModeResponse::PersistState));
    assert_eq!(state(&session).offers.get("h1").unwrap().disposition, HandoffDisposition::Declined);
}

#[test]
fn cannot_accept_already_accepted() {
    let mut session = offered();
    send(&mut session, "target", "HandoffAccept", make_accept("h1", "target")).unwrap();
    let err = send(&mut session, "target", "HandoffAccept", make_accept("h1", "target")).unwrap_err();
    assert_eq!(err.to_string(), "InvalidPayload");
}

#[test]
fn commitment_after_accept() {
    let mut session = offered();
    send(&mut session, "target", "HandoffAccept", make_accept("h1", "target")).unwrap();
    let result = send(&mut session, "owner", "Commitment", commitment_payload()).unwrap();
    assert!(matches!(result, ModeResponse::PersistAndResolve));
    assert_eq!(session.state, SessionState::Resolved);
}

#[test]
fn commitment_after_decline() {
    let mut session = offered();
    send(&mut session, "target", "HandoffDecline", make_decline("h1", "target")).unwrap();
    let result = send(&mut session, "owner", "Commitment", commitment_payload()).unwrap();
    assert!(matches!(result, ModeResponse::PersistAndResolve));
}

#[test]
fn commitment_without_response_rejected() {
    let mut session = offered();
    let err = send(&mut session, "owner", "Commitment", commitment_payload()).unwrap_err();
    assert_eq!(err.to_string(), "InvalidPayload");
}

#[test]
fn commitment_with_no_offers_rejected() {
    let mut session = base_session();
    start(&mut session);
    let err = send(&mut session, "owner", "Commitment", commitment_payload()).unwrap_err();
    assert_eq!(err.to_string(), "InvalidPayload");
}

#[test]
fn full_handoff_lifecycle() {
    let mut session = offered();
    send(&mut session, "owner", "HandoffContext", make_context("h1")).unwrap();
    send(&mut session, "target", "HandoffAccept", make_accept("h1", "target")).unwrap();
    let result = send(&mut session, "owner", "Commitment", commitment_payload()).unwrap();
    assert!(matches!(result, ModeResponse::PersistAndResolve));
}

#[test]
fn second_offer_while_first_pending_rejected() {
    let mut session = base_session();
    session.participants = vec!["owner".into(), "target".into(), "other".into()];
    start(&mut session);
    send(&mut session, "owner", "HandoffOffer", make_offer("h1", "target")).unwrap();
    let err = send(&mut session, "owner", "HandoffOffer", make_offer("h2", "other")).unwrap_err();
    assert_eq!(err.to_string(), "InvalidPayload");
}

#[test]
fn second_offer_after_first_accepted_succeeds() {
    let mut session = base_session();
    session.participants = vec!["owner".into(), "target".into(), "other".into()];
    start(&mut session);
    send(&mut session, "owner", "HandoffOffer", make_offer("h1", "target")).unwrap();
    send(&mut session, "target", "HandoffAccept", make_accept("h1", "target")).unwrap();
    send(&mut session, "owner", "HandoffOffer", make_offer("h2", "other")).unwrap();
}

#[test]
fn second_offer_after_first_declined_succeeds() {
    let mut session = base_session();
    session.participants = vec!["owner".into(), "target".into(), "other".into()];
    start(&mut session);
    send(&mut session, "owner", "HandoffOffer", make_offer("h1", "target")).unwrap();
    send(&mut session, "target", "HandoffDecline", make_decline("h1", "target")).unwrap();
    send(&mut session, "owner", "HandoffOffer", make_offer("h2", "other")).unwrap();
}

#[test]
fn handoff_commitment_version_mismatch_rejected() {
    let mut session = offered();
    send(&mut session, "target", "HandoffAccept", make_accept("h1", "target")).unwrap();
    let err = send(&mut session, "owner", "Commitment", commitment_with("wrong")).unwrap_err();
    assert_eq!(err.to_string(), "InvalidPayload");
}

#[test]
fn handoff_unknown_message_type_rejected() {
    let mut session = base_session();
    start(&mut session);
    let err = send(&mut session, "owner", "CustomType", MessagePayload::Raw).unwrap_err();
    assert_eq!(err.to_string(), "InvalidPayload");
}

#[test]
fn context_after_accept_is_rejected() {
    let mut session = offered();
    send(&mut session, "target", "HandoffAccept", make_accept("h1", "target")).unwrap();
    assert_eq!(
        send(&mut session, "owner", "HandoffContext", make_context("h1")).unwrap_err().to_string(),
        "InvalidPayload"
    );
}

#[test]
fn handoff_policy_evaluator_always_allows() {
    let mut session = base_session();
    let mut policy = macp_runtime::policy::defaults::default_policy();
    policy.policy_id = "test-handoff".into();
    policy.mode = "macp.mode.handoff.v1".into();
    policy.description = "handoff policy".into();
    session.policy_definition = Some(policy);
    start(&mut session);
    send(&mut session, "owner", "HandoffOffer", make_offer("h1", "target")).unwrap();
    send(&mut session, "target", "HandoffAccept", make_accept("h1", "target")).unwrap();
    // Handoff policy evaluator always allows — commitment should succeed
    let result = send(&mut session, "owner", "Commitment", commitment_payload()).unwrap();
    assert!(matches!(result, ModeResponse::PersistAndResolve));
}

#[test]
fn implicit_accept_timeout_ignores_unstamped_offers() {
    let mut session = base_session();
    let mut policy = macp_runtime::policy::defaults::default_policy();
    policy.rules.handoff.acceptance.implicit_accept_timeout_ms = 5000;
    session.policy_definition = Some(policy);
    start(&mut session);
    HandoffMode
        .on_message_at(&mut session, &env("owner", "HandoffOffer"), make_offer("h1", "target"), 1_000)
        .unwrap();
    // Offers carry no offer time, so the timeout never accepts them.
    assert_eq!(state(&session).offers.get("h1").unwrap().offered_at_ms, 0);
    assert!(HandoffMode
        .on_message_at(&mut session, &env("owner", "Commitment"), commitment_payload(), 1_000_000)
        .is_err());
    assert_eq!(state(&session).offers.get("h1").unwrap().disposition, HandoffDisposition::Offered);
}
