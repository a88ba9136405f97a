use macp_runtime::error::MacpError;
use macp_runtime::log_store::{EntryKind, LogEntry, LogStore};
use macp_runtime::mode::PolicyJudgments;
use macp_runtime::pb::{
    AcceptPayload, CommitmentPayload, DecisionProposalPayload, Envelope, MessagePayload, ProposalPayload,
    SessionStartPayload, SignalPayload,
};
use macp_runtime::runtime::{
    checkpoint_due, make_incoming_entry, make_internal_entry, CancelPlan, MessagePlan, ProcessResult, Runtime,
    StartPlan,
};
use macp_runtime::keyed::KeyedVec;
use macp_runtime::mode_registry::ModeRegistry;
use macp_runtime::pb::Root;
use macp_runtime::replay::{replay_session, Checkpoint};
use macp_runtime::runtime::{request_kind, RequestKind};
use macp_runtime::session::{recovered_ttl_ms, ModeState, Session, SessionState};

const SID: &str = "0b3c9a2e-8d7f-4c61-9a1e-2f4b6c8d0e1a";
const NOW: i64 = 1_700_000_000_000;

fn start_payload(participants: Vec<&str>, ttl_ms: i64) -> MessagePayload {
    MessagePayload::SessionStart(SessionStartPayload {
        intent: "intent".into(),
        participants: participants.into_iter().map(String::from).collect(),
        mode_version: "1.0.0".into(),
        configuration_version: "cfg-1".into(),
        policy_version: String::new(),
        ttl_ms,
        context: vec![],
        roots: vec![],
    })
}

fn env(mode: &str, message_type: &str, message_id: &str, sender: &str) -> Envelope {
    Envelope {
        macp_version: "1.0".into(),
        mode: mode.into(),
        message_type: message_type.into(),
        message_id: message_id.into(),
        session_id: SID.into(),
        sender: sender.into(),
        timestamp_unix_ms: NOW,
        payload: vec![1],
    }
}

fn start(rt: &mut Runtime, e: &Envelope, payload: MessagePayload) -> Result<ProcessResult, MacpError> {
    match rt.plan_session_start(e, &payload, None, NOW)? {
        StartPlan::Duplicate(state) => Ok(ProcessResult { session_state: state, duplicate: true }),
        StartPlan::Create(session) => Ok(rt.commit_session_start(session)),
    }
}

fn send(rt: &mut Runtime, e: &Envelope, payload: MessagePayload, now: i64) -> Result<ProcessResult, MacpError> {
    rt.apply_message(e, payload, &PolicyJudgments::none(), now)
}

fn decision_proposal() -> MessagePayload {
    MessagePayload::DecisionProposal(DecisionProposalPayload {
        proposal_id: "p1".into(),
        option: "step-up".into(),
        rationale: "risk".into(),
        supporting_data: vec![],
    })
}

#[test]
fn standard_session_start_is_strict() {
    let mut rt = Runtime::new();
    let bad = MessagePayload::SessionStart(SessionStartPayload {
        intent: String::new(),
        participants: vec![],
        mode_version: String::new(),
        configuration_version: String::new(),
        policy_version: String::new(),
        ttl_ms: 0,
        context: vec![],
        roots: vec![],
    });
    let err = start(&mut rt, &env("macp.mode.decision.v1", "SessionStart", "m1", "agent://orchestrator"), bad).unwrap_err();
    assert!(matches!(err, MacpError::InvalidPayload | MacpError::InvalidTtl));
}

#[test]
fn empty_mode_is_rejected() {
    let mut rt = Runtime::new();
    let err = start(&mut rt, &env("", "SessionStart", "m1", "agent://orchestrator"), start_payload(vec!["agent://fraud"], 1_000))
        .unwrap_err();
    assert_eq!(err.to_string(), "InvalidEnvelope");
}

#[test]
fn weak_session_id_is_rejected() {
    let mut rt = Runtime::new();
    let mut e = env("macp.mode.decision.v1", "SessionStart", "m1", "agent://orchestrator");
    e.session_id = "s1".into();
    let err = start(&mut rt, &e, start_payload(vec!["agent://fraud"], 1_000)).unwrap_err();
    assert_eq!(err, MacpError::InvalidSessionId);
}

#[test]
fn rejected_messages_do_not_enter_dedup_state() {
    let mut rt = Runtime::new();
    start(
        &mut rt,
        &env("macp.mode.decision.v1", "SessionStart", "m1", "agent://orchestrator"),
        start_payload(vec!["agent://orchestrator", "agent://fraud"], 60_000),
    )
    .unwrap();
    let bad = send(&mut rt, &env("macp.mode.decision.v1", "Proposal", "m2", "agent://fraud"), MessagePayload::Undecodable, NOW)
        .unwrap_err();
    assert_eq!(bad.to_string(), "InvalidPayload");
    let result =
        send(&mut rt, &env("macp.mode.decision.v1", "Proposal", "m2", "agent://orchestrator"), decision_proposal(), NOW).unwrap();
    assert!(!result.duplicate);
}

#[test]
fn get_session_transitions_expired_sessions() {
    let mut rt = Runtime::new();
    start(
        &mut rt,
        &env("macp.mode.decision.v1", "SessionStart", "m1", "agent://orchestrator"),
        start_payload(vec!["agent://fraud"], 1),
    )
    .unwrap();
    // 5 ms later the TTL has passed: the session is due to expire, and expiring it
    // after the expiry is logged leaves it expired.
    assert!(rt.session_due_to_expire(SID, NOW + 5));
    assert_eq!(rt.expired_session_ids(NOW + 5), vec![SID.to_string()]);
    assert_eq!(rt.expire_session(SID), Some(SessionState::Expired));
    assert_eq!(rt.get_session(SID).unwrap().state, SessionState::Expired);
}

#[test]
fn multi_round_requires_standard_session_start() {
    let mut rt = Runtime::new();
    let payload = MessagePayload::SessionStart(SessionStartPayload {
        intent: String::new(),
        participants: vec!["creator".into(), "other".into()],
        mode_version: String::new(),
        configuration_version: String::new(),
        policy_version: String::new(),
        ttl_ms: 0,
        context: vec![],
        roots: vec![],
    });
    let err = start(&mut rt, &env("ext.multi_round.v1", "SessionStart", "m1", "creator"), payload).unwrap_err();
    assert!(matches!(err, MacpError::InvalidPayload | MacpError::InvalidTtl));
}

#[test]
fn multi_round_valid_session_start() {
    let mut rt = Runtime::new();
    start(&mut rt, &env("ext.multi_round.v1", "SessionStart", "m1", "coordinator"), start_payload(vec!["alice", "bob"], 1_000))
        .unwrap();
    let session = rt.get_session(SID).unwrap();
    assert_eq!(session.mode, "ext.multi_round.v1");
    assert_eq!(session.participants, vec!["alice", "bob"]);
    assert_eq!(session.policy_version, "policy.default");
}

#[test]
fn duplicate_session_start_message_id_returns_duplicate() {
    let mut rt = Runtime::new();
    let e = env("macp.mode.decision.v1", "SessionStart", "m1", "agent://orchestrator");
    start(&mut rt, &e, start_payload(vec!["agent://fraud"], 1_000)).unwrap();
    let result = start(&mut rt, &e, start_payload(vec!["agent://fraud"], 1_000)).unwrap();
    assert!(result.duplicate);
    let other = env("macp.mode.decision.v1", "SessionStart", "m9", "agent://orchestrator");
    assert_eq!(start(&mut rt, &other, start_payload(vec!["agent://fraud"], 1_000)).unwrap_err(), MacpError::SessionAlreadyExists);
}

#[test]
fn non_start_mode_mismatch_rejected() {
    let mut rt = Runtime::new();
    start(
        &mut rt,
        &env("macp.mode.decision.v1", "SessionStart", "m1", "agent://orchestrator"),
        start_payload(vec!["agent://orchestrator", "agent://fraud"], 60_000),
    )
    .unwrap();
    let err = send(&mut rt, &env("macp.mode.task.v1", "Proposal", "m2", "agent://orchestrator"), decision_proposal(), NOW)
        .unwrap_err();
    assert_eq!(err, MacpError::InvalidEnvelope);
}

#[test]
fn cancel_idempotent_on_already_expired() {
    let mut rt = Runtime::new();
    start(
        &mut rt,
        &env("macp.mode.decision.v1", "SessionStart", "m1", "agent://orchestrator"),
        start_payload(vec!["agent://fraud"], 1),
    )
    .unwrap();
    // The TTL has passed: the expiry is logged first, then the session is reported expired.
    assert_eq!(rt.plan_cancel(SID, NOW + 5).unwrap(), CancelPlan::ExpireFirst);
    rt.expire_session(SID);
    assert_eq!(rt.plan_cancel(SID, NOW + 5).unwrap(), CancelPlan::Terminal(SessionState::Expired));
    assert_eq!(rt.plan_cancel("missing", NOW).unwrap_err(), MacpError::UnknownSession);
}

#[test]
fn cancel_open_session_expires_it() {
    let mut rt = Runtime::new();
    start(
        &mut rt,
        &env("macp.mode.decision.v1", "SessionStart", "m1", "agent://orchestrator"),
        start_payload(vec!["agent://fraud"], 60_000),
    )
    .unwrap();
    assert_eq!(rt.plan_cancel(SID, NOW).unwrap(), CancelPlan::Cancel);
    let result = rt.cancel_session(SID).unwrap();
    assert_eq!(result.session_state, SessionState::Expired);
    assert_eq!(rt.metrics.snapshot().len(), 1);
}

#[test]
fn expired_session_refuses_messages_with_ttl_expired() {
    let mut rt = Runtime::new();
    start(
        &mut rt,
        &env("macp.mode.decision.v1", "SessionStart", "m1", "agent://orchestrator"),
        start_payload(vec!["agent://orchestrator", "agent://fraud"], 10),
    )
    .unwrap();
    let e = env("macp.mode.decision.v1", "Proposal", "m2", "agent://orchestrator");
    assert_eq!(rt.plan_message(&e, &decision_proposal(), &PolicyJudgments::none(), NOW + 11).unwrap(), MessagePlan::Expire);
    assert_eq!(send(&mut rt, &e, decision_proposal(), NOW + 11).unwrap_err(), MacpError::TtlExpired);
}

#[test]
fn accepted_message_then_duplicate() {
    let mut rt = Runtime::new();
    start(
        &mut rt,
        &env("macp.mode.decision.v1", "SessionStart", "m1", "agent://orchestrator"),
        start_payload(vec!["agent://orchestrator", "agent://fraud"], 60_000),
    )
    .unwrap();
    let e = env("macp.mode.decision.v1", "Proposal", "m2", "agent://orchestrator");
    let first = send(&mut rt, &e, decision_proposal(), NOW).unwrap();
    assert!(!first.duplicate);
    let again = send(&mut rt, &e, MessagePayload::Undecodable, NOW).unwrap();
    assert!(again.duplicate);
    assert_eq!(again.session_state, SessionState::Open);
}

#[test]
fn commitment_versions_are_carried_into_resolution() {
    let mut rt = Runtime::new();
    start(
        &mut rt,
        &env("macp.mode.proposal.v1", "SessionStart", "m1", "agent://buyer"),
        start_payload(vec!["agent://buyer", "agent://seller"], 60_000),
    )
    .unwrap();
    let proposal = MessagePayload::Proposal(ProposalPayload {
        proposal_id: "p1".into(),
        title: "offer".into(),
        summary: "summary".into(),
        details: vec![],
        tags: vec![],
    });
    send(&mut rt, &env("macp.mode.proposal.v1", "Proposal", "m2", "agent://seller"), proposal, NOW).unwrap();
    let accept = || MessagePayload::Accept(AcceptPayload { proposal_id: "p1".into(), reason: String::new() });
    send(&mut rt, &env("macp.mode.proposal.v1", "Accept", "m3", "agent://seller"), accept(), NOW).unwrap();
    send(&mut rt, &env("macp.mode.proposal.v1", "Accept", "m4", "agent://buyer"), accept(), NOW).unwrap();
    let commitment = MessagePayload::Commitment(CommitmentPayload {
        commitment_id: "c1".into(),
        action: "proposal.accepted".into(),
        authority_scope: "commercial".into(),
        reason: "bound".into(),
        mode_version: "1.0.0".into(),
        policy_version: "policy.default".into(),
        configuration_version: "cfg-1".into(),
        outcome_positive: true,
    });
    let result = send(&mut rt, &env("macp.mode.proposal.v1", "Commitment", "m5", "agent://buyer"), commitment, NOW).unwrap();
    assert_eq!(result.session_state, SessionState::Resolved);
    assert!(rt.get_session(SID).unwrap().resolution.is_some());
}

#[test]
fn signal_rules() {
    let mut e = env("", "Signal", "s1", "agent://a");
    assert_eq!(
        Runtime::check_signal(&e, &MessagePayload::Signal(SignalPayload { signal_type: "ping".into(), data: vec![] })).unwrap_err(),
        MacpError::InvalidEnvelope
    );
    e.session_id = String::new();
    assert!(Runtime::check_signal(&e, &MessagePayload::Signal(SignalPayload { signal_type: "ping".into(), data: vec![] })).is_ok());
    assert_eq!(
        Runtime::check_signal(&e, &MessagePayload::Signal(SignalPayload { signal_type: "  ".into(), data: vec![] })).unwrap_err(),
        MacpError::InvalidPayload
    );
    e.payload = vec![];
    assert!(Runtime::check_signal(&e, &MessagePayload::Raw).is_ok());
    e.mode = "macp.mode.decision.v1".into();
    assert_eq!(Runtime::check_signal(&e, &MessagePayload::Raw).unwrap_err(), MacpError::InvalidEnvelope);
}

#[test]
fn signal_naming_a_session_is_refused_even_without_payload() {
    let mut e = signal(vec![]);
    e.session_id = "sess-1".into();
    let err = Runtime::check_signal(&e, &MessagePayload::Raw).unwrap_err();
    assert_eq!(err.error_code(), "INVALID_ENVELOPE");
}

#[test]
fn open_sessions_are_counted_per_initiator() {
    let mut rt = Runtime::new();
    start(
        &mut rt,
        &env("macp.mode.decision.v1", "SessionStart", "m1", "agent://alice"),
        start_payload(vec!["agent://fraud"], 60_000),
    )
    .unwrap();
    assert_eq!(rt.count_open_sessions("agent://alice", NOW), 1);
    assert_eq!(rt.count_open_sessions("agent://alice", NOW + 60_001), 0);
    assert_eq!(rt.count_open_sessions("agent://bob", NOW), 0);
    let mut second = env("macp.mode.decision.v1", "SessionStart", "m2", "agent://alice");
    second.session_id = "1b3c9a2e-8d7f-4c61-9a1e-2f4b6c8d0e1a".into();
    let err = rt.plan_session_start(&second, &start_payload(vec!["agent://fraud"], 60_000), Some(1), NOW);
    assert!(matches!(err, Err(MacpError::RateLimited)));
}

#[test]
fn stale_terminal_sessions_are_evicted() {
    let mut rt = Runtime::new();
    start(
        &mut rt,
        &env("macp.mode.decision.v1", "SessionStart", "m1", "agent://orchestrator"),
        start_payload(vec!["agent://fraud"], 60_000),
    )
    .unwrap();
    assert!(rt.evict_stale_sessions(10, NOW + 20_000).is_empty());
    rt.cancel_session(SID).unwrap();
    assert_eq!(rt.evict_stale_sessions(10, NOW + 20_000), vec![SID.to_string()]);
    assert!(rt.get_session(SID).is_none());
}

#[test]
fn log_entries_and_checkpoint_interval() {
    let e = env("macp.mode.decision.v1", "Proposal", "m2", "agent://orchestrator");
    let entry = make_incoming_entry(&e, 42);
    assert_eq!(entry.entry_kind, EntryKind::Incoming);
    assert_eq!(entry.received_at_ms, 42);
    assert_eq!(entry.message_id, "m2");
    let internal = make_internal_entry("TtlExpired", &vec![], SID, "macp.mode.decision.v1", 7);
    assert_eq!(internal.sender, "_runtime");
    assert_eq!(internal.macp_version, "1.0");
    assert!(!checkpoint_due(5, 0));
    assert!(!checkpoint_due(3, 5));
    assert!(checkpoint_due(10, 5));
    assert!(!checkpoint_due(11, 5));
}

fn entry(id: &str, kind: EntryKind) -> LogEntry {
    LogEntry {
        message_id: id.into(),
        received_at_ms: 1_700_000_000_000,
        sender: "test".into(),
        message_type: "Message".into(),
        raw_payload: vec![],
        entry_kind: kind,
        session_id: String::new(),
        mode: String::new(),
        macp_version: String::new(),
        timestamp_unix_ms: 1_700_000_000_000,
    }
}

#[test]
fn create_append_get_round_trip() {
    let mut store = LogStore::new();
    store.create_session_log("s1");
    store.append("s1", entry("m1", EntryKind::Incoming));
    store.append("s1", entry("m2", EntryKind::Incoming));
    let log = store.get_log("s1").unwrap();
    assert_eq!(log.len(), 2);
    assert_eq!(log[0].message_id, "m1");
    assert_eq!(log[1].message_id, "m2");
}

#[test]
fn get_incoming_after_filters_by_sequence_and_kind() {
    let mut store = LogStore::new();
    store.create_session_log("s1");
    store.append("s1", entry("m0", EntryKind::Incoming));
    store.append("s1", entry("m1", EntryKind::Internal));
    store.append("s1", entry("m2", EntryKind::Incoming));
    store.append("s1", entry("m3", EntryKind::Incoming));
    store.append("s1", entry("m4", EntryKind::Checkpoint));
    // after_sequence=0 returns all Incoming entries
    let all = store.get_incoming_after("s1", 0);
    assert_eq!(all.len(), 3);
    assert_eq!(all[0].1.message_id, "m0");
    assert_eq!(all[1].1.message_id, "m2");
    assert_eq!(all[2].1.message_id, "m3");
    // after_sequence=2 skips index 0 and 1
    let after2 = store.get_incoming_after("s1", 2);
    assert_eq!(after2.len(), 2);
    assert_eq!(after2[0].0, 2); // index
    assert_eq!(after2[0].1.message_id, "m2");
    assert_eq!(after2[1].0, 3);
    assert_eq!(after2[1].1.message_id, "m3");
    // nonexistent session returns empty
    let empty = store.get_incoming_after("nope", 0);
    assert!(empty.is_empty());
}

fn sample_session(id: &str) -> Session {
    Session {
        session_id: id.into(),
        state: SessionState::Open,
        ttl_expiry: 10,
        ttl_ms: 9,
        started_at_unix_ms: 1,
        resolution: None,
        mode: "macp.mode.decision.v1".into(),
        mode_state: ModeState::Empty,
        participants: vec!["alice".into()],
        seen_message_ids: vec!["m1".into()],
        intent: "intent".into(),
        mode_version: "1.0.0".into(),
        configuration_version: "cfg".into(),
        policy_version: "pol".into(),
        context: vec![9],
        roots: vec![Root { uri: "root://1".into(), name: "r1".into() }],
        initiator_sender: "alice".into(),
        participant_message_counts: KeyedVec::new(),
        participant_last_seen: KeyedVec::new(),
        policy_definition: None,
    }
}

#[test]
fn expired_sessions_not_counted_against_limit() {
    let mut rt = Runtime::new();
    let now = NOW;
    let mut expired = sample_session("expired-s1");
    expired.initiator_sender = "agent://alice".into();
    expired.ttl_expiry = now - 1000;
    expired.state = SessionState::Open;
    rt.insert_recovered_session("expired-s1".into(), expired);
    assert_eq!(rt.count_open_sessions("agent://alice", now), 0);

    let mut active = sample_session("active-s1");
    active.initiator_sender = "agent://alice".into();
    active.ttl_expiry = now + 60_000;
    active.state = SessionState::Open;
    rt.insert_recovered_session("active-s1".into(), active);
    assert_eq!(rt.count_open_sessions("agent://alice", now), 1);
}

#[test]
fn recovered_session_keeps_its_fields() {
    let mut rt = Runtime::new();
    rt.insert_recovered_session("s1".into(), sample_session("s1"));
    let session = rt.get_session("s1").unwrap();
    assert_eq!(session.mode, "macp.mode.decision.v1");
    assert_eq!(session.mode_version, "1.0.0");
    assert!(session.has_seen_message("m1"));
}

#[test]
fn recovered_ttl_prefers_the_stored_ttl() {
    assert_eq!(recovered_ttl_ms(9, 10, 1), 9);
    assert_eq!(recovered_ttl_ms(0, 61_000, 1_000), 60_000);
    assert_eq!(recovered_ttl_ms(-5, 61_000, 1_000), 60_000);
    assert_eq!(recovered_ttl_ms(0, i64::MAX, -10), i64::MAX);
    assert_eq!(recovered_ttl_ms(0, i64::MIN, 10), i64::MIN);
}

#[test]
fn runtime_delegates_to_its_registries() {
    let mut rt = Runtime::with_mode_registry(ModeRegistry::build_default());
    assert_eq!(rt.registered_mode_names(), rt.mode_registry().all_mode_names());
    assert_eq!(rt.standard_mode_descriptors().len(), 5);
    let ext_before = rt.extension_mode_descriptors().len();
    assert!(rt.get_policy("policy.default").is_some());
    assert!(rt.get_policy("policy.missing").is_none());
    assert_eq!(rt.list_policies(None).len(), 1);
    assert_eq!(rt.unregister_policy("policy.default").unwrap_err(), "cannot unregister the built-in default policy");
    assert_eq!(rt.unregister_policy("policy.missing").unwrap_err(), "policy 'policy.missing' not found");
    assert!(rt.policy_registry().get("policy.default").is_some());
    assert_eq!(rt.unregister_extension("ext.none.v1").unwrap_err(), "mode 'ext.none.v1' not found");
    assert_eq!(
        rt.promote_mode("macp.mode.decision.v1", None).unwrap_err(),
        "mode 'macp.mode.decision.v1' is already standards-track"
    );
    assert_eq!(rt.extension_mode_descriptors().len(), ext_before);
    assert!(rt.metrics().snapshot().is_empty());
}

#[test]
fn accepted_history_replays_to_the_live_outcome() {
    let mut rt = Runtime::new();
    let start_env = env("macp.mode.proposal.v1", "SessionStart", "m1", "agent://buyer");
    let payloads = || {
        let accept = || MessagePayload::Accept(AcceptPayload { proposal_id: "p1".into(), reason: String::new() });
        vec![
            MessagePayload::SessionStart(SessionStartPayload {
                intent: "intent".into(),
                participants: vec!["agent://buyer".into(), "agent://seller".into()],
                mode_version: "1.0.0".into(),
                configuration_version: "cfg-1".into(),
                policy_version: "policy.default".into(),
                ttl_ms: 60_000,
                context: vec![],
                roots: vec![],
            }),
            MessagePayload::Proposal(ProposalPayload {
                proposal_id: "p1".into(),
                title: "offer".into(),
                summary: "summary".into(),
                details: vec![],
                tags: vec![],
            }),
            accept(),
            accept(),
            MessagePayload::Commitment(CommitmentPayload {
                commitment_id: "c1".into(),
                action: "proposal.accepted".into(),
                authority_scope: "commercial".into(),
                reason: "bound".into(),
                mode_version: "1.0.0".into(),
                policy_version: "policy.default".into(),
                configuration_version: "cfg-1".into(),
                outcome_positive: true,
            }),
        ]
    };
    let envs = vec![
        start_env,
        env("macp.mode.proposal.v1", "Proposal", "m2", "agent://seller"),
        env("macp.mode.proposal.v1", "Accept", "m3", "agent://seller"),
        env("macp.mode.proposal.v1", "Accept", "m4", "agent://buyer"),
        env("macp.mode.proposal.v1", "Commitment", "m5", "agent://buyer"),
    ];
    let mut live = payloads().into_iter();
    start(&mut rt, &envs[0], live.next().unwrap()).unwrap();
    for (e, p) in envs[1..].iter().zip(live) {
        send(&mut rt, e, p, NOW).unwrap();
    }
    let log: Vec<LogEntry> = envs.iter().map(|e| make_incoming_entry(e, NOW)).collect();
    let replayed = replay_session(
        SID,
        &log,
        payloads(),
        Checkpoint::Absent,
        &rt.mode_registry,
        Some(&rt.policy_registry),
        &|_s: &Session| PolicyJudgments::none(),
    )
    .unwrap();
    let session = rt.get_session(SID).unwrap();
    assert_eq!(replayed.state, SessionState::Resolved);
    assert_eq!(replayed.state, session.state);
    assert_eq!(replayed.resolution, session.resolution);
    assert_eq!(replayed.seen_message_ids, session.seen_message_ids);
    assert_eq!(replayed.policy_version, session.policy_version);
    assert_eq!(replayed.ttl_expiry, session.ttl_expiry);
}

#[test]
fn requests_are_routed_by_message_type() {
    assert_eq!(request_kind("SessionStart"), RequestKind::SessionStart);
    assert_eq!(request_kind("Signal"), RequestKind::Signal);
    assert_eq!(request_kind("Progress"), RequestKind::Signal);
    assert_eq!(request_kind("Proposal"), RequestKind::SessionMessage);
    assert_eq!(request_kind("signal"), RequestKind::SessionMessage);
}

#[test]
fn resolved_session_refuses_new_messages() {
    let mut rt = Runtime::new();
    start(
        &mut rt,
        &env("macp.mode.decision.v1", "SessionStart", "m1", "agent://orchestrator"),
        start_payload(vec!["agent://orchestrator", "agent://fraud"], 60_000),
    )
    .unwrap();
    send(&mut rt, &env("macp.mode.decision.v1", "Proposal", "m2", "agent://orchestrator"), decision_proposal(), NOW).unwrap();
    let commitment = MessagePayload::Commitment(CommitmentPayload {
        commitment_id: "c1".into(),
        action: "decision.selected".into(),
        authority_scope: "payments".into(),
        reason: "bound".into(),
        mode_version: "1.0.0".into(),
        policy_version: "policy.default".into(),
        configuration_version: "cfg-1".into(),
        outcome_positive: true,
    });
    let resolved = send(&mut rt, &env("macp.mode.decision.v1", "Commitment", "m3", "agent://orchestrator"), commitment, NOW).unwrap();
    assert_eq!(resolved.session_state, SessionState::Resolved);
    let late = send(&mut rt, &env("macp.mode.decision.v1", "Proposal", "m4", "agent://orchestrator"), decision_proposal(), NOW);
    assert_eq!(late.unwrap_err(), MacpError::SessionNotOpen);
    // A message already accepted is still acknowledged as a duplicate.
    let again = send(&mut rt, &env("macp.mode.decision.v1", "Proposal", "m2", "agent://orchestrator"), decision_proposal(), NOW).unwrap();
    assert!(again.duplicate);
    assert_eq!(again.session_state, SessionState::Resolved);
}

fn start_with(rt: &mut Runtime, e: &Envelope, payload: MessagePayload, max_open: Option<usize>) -> Result<ProcessResult, MacpError> {
    match rt.plan_session_start(e, &payload, max_open, NOW)? {
        StartPlan::Duplicate(state) => Ok(ProcessResult { session_state: state, duplicate: true }),
        StartPlan::Create(session) => Ok(rt.commit_session_start(session)),
    }
}

fn env_in(session_id: &str, mode: &str, message_type: &str, message_id: &str, sender: &str) -> Envelope {
    let mut e = env(mode, message_type, message_id, sender);
    e.session_id = session_id.into();
    e
}

const SID2: &str = "1b3c9a2e-8d7f-4c61-9a1e-2f4b6c8d0e1a";
const SID3: &str = "2b3c9a2e-8d7f-4c61-9a1e-2f4b6c8d0e1a";

#[test]
fn max_open_sessions_enforced_under_write_lock() {
    let mut rt = Runtime::new();
    start_with(
        &mut rt,
        &env_in(SID, "macp.mode.decision.v1", "SessionStart", "m1", "agent://orchestrator"),
        start_payload(vec!["agent://fraud"], 60_000),
        Some(1),
    )
    .unwrap();
    let err = start_with(
        &mut rt,
        &env_in(SID2, "macp.mode.decision.v1", "SessionStart", "m2", "agent://orchestrator"),
        start_payload(vec!["agent://fraud"], 60_000),
        Some(1),
    )
    .unwrap_err();
    assert!(matches!(err, MacpError::RateLimited));
    start_with(
        &mut rt,
        &env_in(SID3, "macp.mode.decision.v1", "SessionStart", "m3", "agent://other"),
        start_payload(vec!["agent://fraud"], 60_000),
        Some(1),
    )
    .unwrap();
}

#[test]
fn weak_session_id_rejected() {
    let mut rt = Runtime::new();
    let err = start(
        &mut rt,
        &env_in("s1", "macp.mode.decision.v1", "SessionStart", "m1", "agent://orchestrator"),
        start_payload(vec!["agent://fraud"], 60_000),
    )
    .unwrap_err();
    assert_eq!(err.to_string(), "InvalidSessionId");
}

#[test]
fn ttl_expiration_rejects_message() {
    let mut rt = Runtime::new();
    start(
        &mut rt,
        &env("macp.mode.decision.v1", "SessionStart", "m1", "agent://orchestrator"),
        start_payload(vec!["agent://orchestrator", "agent://fraud"], 1),
    )
    .unwrap();
    let e = env("macp.mode.decision.v1", "Proposal", "m2", "agent://orchestrator");
    assert_eq!(rt.plan_message(&e, &decision_proposal(), &PolicyJudgments::none(), NOW + 5).unwrap(), MessagePlan::Expire);
    let err = send(&mut rt, &e, decision_proposal(), NOW + 5).unwrap_err();
    assert_eq!(err.to_string(), "TtlExpired");
}

#[test]
fn cleanup_expired_sessions_marks_expired() {
    let mut rt = Runtime::new();
    start(
        &mut rt,
        &env("macp.mode.decision.v1", "SessionStart", "m1", "agent://orchestrator"),
        start_payload(vec!["agent://fraud"], 1),
    )
    .unwrap();
    for id in rt.expired_session_ids(NOW + 5) {
        rt.expire_session(&id);
    }
    assert_eq!(rt.get_session(SID).unwrap().state, SessionState::Expired);
}

#[test]
fn evict_stale_sessions_removes_resolved() {
    let mut rt = Runtime::new();
    start(
        &mut rt,
        &env("macp.mode.decision.v1", "SessionStart", "m1", "agent://orchestrator"),
        start_payload(vec!["agent://orchestrator", "agent://fraud"], 60_000),
    )
    .unwrap();
    send(&mut rt, &env("macp.mode.decision.v1", "Proposal", "m2", "agent://orchestrator"), decision_proposal(), NOW).unwrap();
    let commitment = MessagePayload::Commitment(CommitmentPayload {
        commitment_id: "c1".into(),
        action: "decision.selected".into(),
        authority_scope: "payments".into(),
        reason: "bound".into(),
        mode_version: "1.0.0".into(),
        policy_version: "policy.default".into(),
        configuration_version: "cfg-1".into(),
        outcome_positive: true,
    });
    let result =
        send(&mut rt, &env("macp.mode.decision.v1", "Commitment", "m3", "agent://orchestrator"), commitment, NOW).unwrap();
    assert_eq!(result.session_state, SessionState::Resolved);
    rt.evict_stale_sessions(0, NOW + 5);
    assert!(rt.get_session(SID).is_none());
}

#[test]
fn session_start_with_wrong_mode_version_rejected() {
    let mut rt = Runtime::new();
    let payload = MessagePayload::SessionStart(SessionStartPayload {
        intent: "test".into(),
        participants: vec!["agent://orchestrator".into(), "agent://worker".into()],
        mode_version: "99.0.0".into(),
        configuration_version: "cfg-1".into(),
        policy_version: String::new(),
        ttl_ms: 60_000,
        context: vec![],
        roots: vec![],
    });
    let err = start(&mut rt, &env("macp.mode.decision.v1", "SessionStart", "m1", "agent://orchestrator"), payload).unwrap_err();
    assert_eq!(err.error_code(), "INVALID_ENVELOPE");
}

fn signal(payload: Vec<u8>) -> Envelope {
    Envelope {
        macp_version: "1.0".into(),
        mode: String::new(),
        message_type: "Signal".into(),
        message_id: "sig-1".into(),
        session_id: String::new(),
        sender: "agent://a".into(),
        timestamp_unix_ms: 0,
        payload,
    }
}

#[test]
fn signal_empty_signal_type_rejected() {
    let e = signal(b"encoded".to_vec());
    let payload = MessagePayload::Signal(SignalPayload { signal_type: String::new(), data: b"some data".to_vec() });
    let err = Runtime::check_signal(&e, &payload).unwrap_err();
    assert_eq!(err.error_code(), "INVALID_ENVELOPE");
}

#[test]
fn signal_valid_payload_accepted() {
    let e = signal(b"encoded".to_vec());
    let payload = MessagePayload::Signal(SignalPayload { signal_type: "heartbeat".into(), data: vec![] });
    Runtime::check_signal(&e, &payload).unwrap();
}

#[test]
fn signal_empty_payload_accepted() {
    let e = signal(vec![]);
    Runtime::check_signal(&e, &MessagePayload::Raw).unwrap();
}

#[test]
fn cancel_leaves_a_terminal_session_as_it_is() {
    let mut rt = Runtime::new();
    start(
        &mut rt,
        &env("macp.mode.decision.v1", "SessionStart", "m1", "agent://orchestrator"),
        start_payload(vec!["agent://fraud"], 60_000),
    )
    .unwrap();
    rt.cancel_session(SID).unwrap();
    let again = rt.cancel_session(SID).unwrap();
    assert_eq!(again.session_state, SessionState::Expired);
    assert!(!again.duplicate);
    assert_eq!(rt.metrics.snapshot()[0].1.sessions_cancelled, 1);
    assert_eq!(rt.cancel_session("unknown").unwrap_err(), MacpError::UnknownSession);
}
