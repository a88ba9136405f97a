use macp_runtime::keyed::KeyedVec;
use macp_runtime::mode::passthrough::PassthroughMode;
use macp_runtime::mode::{Mode, ModeResponse, PolicyJudgments};
use macp_runtime::pb::{CommitmentPayload, Envelope, MessagePayload};
use macp_runtime::session::{ModeState, Session, SessionState};

fn make_session() -> Session {
    Session {
        session_id: "s1".into(),
        state: SessionState::Open,
        ttl_expiry: i64::MAX,
        ttl_ms: 60_000,
        started_at_unix_ms: 1000,
        resolution: None,
        mode: "ext.test.v1".into(),
        mode_state: ModeState::Empty,
        participants: vec!["alice".into(), "bob".into()],
        seen_message_ids: Vec::new(),
        intent: String::new(),
        mode_version: "1.0.0".into(),
        configuration_version: "cfg-1".into(),
        policy_version: String::new(),
        context: Vec::new(),
        roots: vec![],
        initiator_sender: "alice".into(),
        participant_message_counts: KeyedVec::new(),
        participant_last_seen: KeyedVec::new(),
        policy_definition: None,
    }
}

fn make_env(sender: &str, message_type: &str, payload: Vec<u8>) -> Envelope {
    Envelope {
        macp_version: "1.0".into(),
        mode: "ext.test.v1".into(),
        message_type: message_type.into(),
        message_id: "m1".into(),
        session_id: "s1".into(),
        sender: sender.into(),
        timestamp_unix_ms: 1000,
        payload,
    }
}

#[test]
fn accepts_any_message_when_no_filter() {
    let mode = PassthroughMode { allowed_message_types: vec![] };
    let mut session = make_session();
    let env = make_env("alice", "CustomMessage", b"data".to_vec());
    let result = mode.on_message(&mut session, &env, MessagePayload::Raw, &PolicyJudgments::none()).unwrap();
    assert!(matches!(result, ModeResponse::PersistState));
    match &session.mode_state {
        ModeState::Raw(bytes) => assert_eq!(bytes, &b"data".to_vec()),
        _ => panic!("payload not persisted"),
    }
}

#[test]
fn rejects_unlisted_message_type() {
    let mode = PassthroughMode { allowed_message_types: vec!["Allowed".into()] };
    let mut session = make_session();
    let env = make_env("alice", "NotAllowed", vec![]);
    assert!(mode.on_message(&mut session, &env, MessagePayload::Raw, &PolicyJudgments::none()).is_err());
}

#[test]
fn commitment_resolves_session() {
    let mode = PassthroughMode { allowed_message_types: vec!["Commitment".into()] };
    let mut session = make_session();
    let payload = CommitmentPayload {
        commitment_id: "c1".into(),
        action: "test.done".into(),
        authority_scope: "test".into(),
        reason: "done".into(),
        mode_version: "1.0.0".into(),
        policy_version: String::new(),
        configuration_version: "cfg-1".into(),
        outcome_positive: true,
    };
    let env = make_env("alice", "Commitment", vec![1]);
    let result = mode
        .on_message(&mut session, &env, MessagePayload::Commitment(payload), &PolicyJudgments::none())
        .unwrap();
    assert!(matches!(result, ModeResponse::Resolve));
    assert_eq!(session.state, SessionState::Resolved);
    assert_eq!(
        session.resolution,
        Some(br#"{"action":"test.done","commitment_id":"c1"}"#.to_vec())
    );
}

#[test]
fn non_initiator_commitment_forbidden() {
    let mode = PassthroughMode { allowed_message_types: vec!["Commitment".into()] };
    let session = make_session();
    let env = make_env("bob", "Commitment", vec![]);
    assert!(mode.authorize_sender(&session, &env).is_err());
}

#[test]
fn commitment_resolution_escapes_strings() {
    let mode = PassthroughMode { allowed_message_types: vec!["Commitment".into()] };
    let mut session = make_session();
    let payload = CommitmentPayload {
        commitment_id: "c\"1".into(),
        action: "a\\b\n\u{1}".into(),
        authority_scope: "test".into(),
        reason: "done".into(),
        mode_version: "1.0.0".into(),
        policy_version: String::new(),
        configuration_version: "cfg-1".into(),
        outcome_positive: true,
    };
    let env = make_env("alice", "Commitment", vec![1]);
    mode.on_message(&mut session, &env, MessagePayload::Commitment(payload), &PolicyJudgments::none()).unwrap();
    assert_eq!(
        session.resolution,
        Some(br#"{"action":"a\\b\n\u0001","commitment_id":"c\"1"}"#.to_vec())
    );
}
