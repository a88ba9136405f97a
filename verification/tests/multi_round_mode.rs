use macp_runtime::keyed::KeyedVec;
use macp_runtime::mode::multi_round::{MultiRoundMode, MultiRoundState};
use macp_runtime::mode::{Mode, ModeResponse, PolicyJudgments};
use macp_runtime::ordered::OrderedMap;
use macp_runtime::pb::{ContributePayload, Envelope, MessagePayload};
use macp_runtime::session::{ModeState, Session, SessionState};

fn base_session() -> Session {
    Session {
        session_id: "s1".into(),
        state: SessionState::Open,
        ttl_expiry: i64::MAX,
        ttl_ms: 60_000,
        started_at_unix_ms: 0,
        resolution: None,
        mode: "multi_round".into(),
        mode_state: ModeState::Empty,
        participants: vec![],
        seen_message_ids: Vec::new(),
        intent: String::new(),
        mode_version: String::new(),
        configuration_version: String::new(),
        policy_version: String::new(),
        context: vec![],
        roots: vec![],
        initiator_sender: String::new(),
        participant_message_counts: KeyedVec::new(),
        participant_last_seen: KeyedVec::new(),
        policy_definition: None,
    }
}

fn session_start_env() -> Envelope {
    Envelope {
        macp_version: "1.0".into(),
        mode: "multi_round".into(),
        message_type: "SessionStart".into(),
        message_id: "m0".into(),
        session_id: "s1".into(),
        sender: "creator".into(),
        timestamp_unix_ms: 1_700_000_000_000,
        payload: vec![],
    }
}

fn contribute_env(sender: &str, value: &str) -> Envelope {
    let payload = format!("{{\"value\":\"{}\"}}", value);
    Envelope {
        macp_version: "1.0".into(),
        mode: "multi_round".into(),
        message_type: "Contribute".into(),
        message_id: format!("m_{}", sender),
        session_id: "s1".into(),
        sender: sender.into(),
        timestamp_unix_ms: 1_700_000_000_000,
        payload: payload.into_bytes(),
    }
}

fn contribute(value: &str) -> MessagePayload {
    MessagePayload::Contribute(ContributePayload { value: value.into() })
}

fn contributions(pairs: &[(&str, &str)]) -> OrderedMap<String> {
    let mut m = OrderedMap::new();
    for (k, v) in pairs {
        m.insert(k.to_string(), v.to_string());
    }
    m
}

fn session_with_state(round: u64, participants: &[&str], given: &[(&str, &str)]) -> Session {
    let mut s = base_session();
    s.participants = participants.iter().map(|p| p.to_string()).collect();
    s.mode_state = ModeState::MultiRound(MultiRoundState {
        round,
        participants: s.participants.clone(),
        contributions: contributions(given),
        convergence_type: "all_equal".into(),
    });
    s
}

fn state(session: &Session) -> &MultiRoundState {
    match &session.mode_state {
        ModeState::MultiRound(s) => s,
        _ => panic!("no multi-round state"),
    }
}

fn value_of(st: &MultiRoundState, who: &str) -> Option<String> {
    st.contributions.get(who).cloned()
}

fn send(session: &mut Session, sender: &str, value: &str) -> Result<ModeResponse, macp_runtime::error::MacpError> {
    MultiRoundMode.on_message(session, &contribute_env(sender, value), contribute(value), &PolicyJudgments::none())
}

#[test]
fn session_start_parses_valid_config() {
    let mut session = base_session();
    session.participants = vec!["alice".into(), "bob".into()];
    let result = MultiRoundMode.on_session_start(&mut session, &session_start_env()).unwrap();
    assert!(matches!(result, ModeResponse::PersistState));
    let st = state(&session);
    assert_eq!(st.round, 0);
    assert_eq!(st.participants, vec!["alice", "bob"]);
    assert_eq!(st.contributions.len(), 0);
}

#[test]
fn multi_round_session_start_rejects_empty_participants() {
    let mut session = base_session(); // empty participants
    let err = MultiRoundMode.on_session_start(&mut session, &session_start_env()).unwrap_err();
    assert_eq!(err.to_string(), "InvalidPayload");
}

#[test]
fn contribute_first_value_increments_round() {
    let mut session = session_with_state(0, &["alice", "bob"], &[]);
    let result = send(&mut session, "alice", "option_a").unwrap();
    assert!(matches!(result, ModeResponse::PersistState));
    assert_eq!(state(&session).round, 1);
    assert_eq!(value_of(state(&session), "alice"), Some("option_a".to_string()));
}

#[test]
fn resubmit_same_value_does_not_increment_round() {
    let mut session = session_with_state(1, &["alice", "bob"], &[("alice", "option_a")]);
    let result = send(&mut session, "alice", "option_a").unwrap();
    assert!(matches!(result, ModeResponse::PersistState));
    assert_eq!(state(&session).round, 1); // unchanged
}

#[test]
fn revise_value_increments_round() {
    let mut session = session_with_state(1, &["alice", "bob"], &[("alice", "option_a")]);
    let result = send(&mut session, "alice", "option_b").unwrap();
    assert!(matches!(result, ModeResponse::PersistState));
    assert_eq!(state(&session).round, 2);
    assert_eq!(value_of(state(&session), "alice"), Some("option_b".to_string()));
}

#[test]
fn convergence_when_all_equal() {
    let mut session = session_with_state(1, &["alice", "bob"], &[("alice", "option_a")]);
    let result = send(&mut session, "bob", "option_a").unwrap();
    assert!(matches!(result, ModeResponse::PersistAndResolve));
    assert_eq!(state(&session).round, 2);
    assert_eq!(session.state, SessionState::Resolved);
    let res: serde_json::Value = serde_json::from_slice(session.resolution.as_ref().unwrap()).unwrap();
    assert_eq!(res["converged_value"], "option_a");
    assert_eq!(res["round"], 2);
    assert_eq!(res["final"]["alice"], "option_a");
    assert_eq!(res["final"]["bob"], "option_a");
}

#[test]
fn no_convergence_when_values_differ() {
    let mut session = session_with_state(1, &["alice", "bob"], &[("alice", "option_a")]);
    let result = send(&mut session, "bob", "option_b").unwrap();
    assert!(matches!(result, ModeResponse::PersistState));
}

#[test]
fn no_convergence_when_not_all_contributed() {
    let mut session = session_with_state(0, &["alice", "bob", "carol"], &[]);
    let result = send(&mut session, "alice", "option_a").unwrap();
    assert!(matches!(result, ModeResponse::PersistState));
}

#[test]
fn non_contribute_message_returns_noop() {
    let mut session = session_with_state(0, &["alice"], &[]);
    let env = Envelope {
        macp_version: "1.0".into(),
        mode: "multi_round".into(),
        message_type: "Message".into(),
        message_id: "m1".into(),
        session_id: "s1".into(),
        sender: "alice".into(),
        timestamp_unix_ms: 1_700_000_000_000,
        payload: b"hello".to_vec(),
    };
    let result = MultiRoundMode.on_message(&mut session, &env, MessagePayload::Raw, &PolicyJudgments::none()).unwrap();
    assert!(matches!(result, ModeResponse::NoOp));
}

#[test]
fn contribute_invalid_payload_returns_error() {
    let mut session = session_with_state(0, &["alice"], &[]);
    let env = Envelope {
        macp_version: "1.0".into(),
        mode: "multi_round".into(),
        message_type: "Contribute".into(),
        message_id: "m1".into(),
        session_id: "s1".into(),
        sender: "alice".into(),
        timestamp_unix_ms: 1_700_000_000_000,
        payload: b"not json".to_vec(),
    };
    let err = MultiRoundMode
        .on_message(&mut session, &env, MessagePayload::Undecodable, &PolicyJudgments::none())
        .unwrap_err();
    assert_eq!(err.to_string(), "InvalidPayload");
}

#[test]
fn three_participant_convergence() {
    let mut session =
        session_with_state(2, &["alice", "bob", "carol"], &[("alice", "option_a"), ("bob", "option_a")]);
    let result = send(&mut session, "carol", "option_a").unwrap();
    assert!(matches!(result, ModeResponse::PersistAndResolve));
}
