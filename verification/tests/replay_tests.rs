use macp_runtime::log_store::{EntryKind, LogEntry};
use macp_runtime::mode::PolicyJudgments;
use macp_runtime::mode_registry::ModeRegistry;
use macp_runtime::pb::{
    CommitmentPayload, DecisionProposalPayload, MessagePayload, SessionStartPayload, VotePayload,
};
use macp_runtime::replay::{last_checkpoint, replay_session, Checkpoint};
use macp_runtime::pb::Envelope;
use macp_runtime::runtime::Runtime;
use macp_runtime::session::{Session, SessionState};

fn make_registry() -> ModeRegistry {
    ModeRegistry::build_default()
}

fn start_payload() -> MessagePayload {
    MessagePayload::SessionStart(SessionStartPayload {
        intent: "test".into(),
        participants: vec!["agent://orchestrator".into(), "agent://fraud".into()],
        mode_version: "1.0.0".into(),
        configuration_version: "cfg-1".into(),
        policy_version: "policy-1".into(),
        ttl_ms: 60_000,
        context: vec![],
        roots: vec![],
    })
}

fn incoming_entry(message_id: &str, message_type: &str, sender: &str, received_at_ms: i64) -> LogEntry {
    LogEntry {
        message_id: message_id.into(),
        received_at_ms,
        sender: sender.into(),
        message_type: message_type.into(),
        raw_payload: vec![1],
        entry_kind: EntryKind::Incoming,
        session_id: "s1".into(),
        mode: "macp.mode.decision.v1".into(),
        macp_version: "1.0".into(),
        timestamp_unix_ms: received_at_ms,
    }
}

fn internal_entry(message_type: &str, received_at_ms: i64) -> LogEntry {
    LogEntry {
        message_id: String::new(),
        received_at_ms,
        sender: "_runtime".into(),
        message_type: message_type.into(),
        raw_payload: vec![],
        entry_kind: EntryKind::Internal,
        session_id: "s1".into(),
        mode: "macp.mode.decision.v1".into(),
        macp_version: "1.0".into(),
        timestamp_unix_ms: received_at_ms,
    }
}

fn proposal() -> MessagePayload {
    MessagePayload::DecisionProposal(DecisionProposalPayload {
        proposal_id: "p1".into(),
        option: "deploy".into(),
        rationale: "ready".into(),
        supporting_data: vec![],
    })
}

fn vote(reason: &str) -> MessagePayload {
    MessagePayload::Vote(VotePayload { proposal_id: "p1".into(), vote: "approve".into(), reason: reason.into() })
}

fn commitment() -> MessagePayload {
    MessagePayload::Commitment(CommitmentPayload {
        commitment_id: "c1".into(),
        action: "decision.selected".into(),
        authority_scope: "payments".into(),
        reason: "bound".into(),
        mode_version: "1.0.0".into(),
        policy_version: "policy-1".into(),
        configuration_version: "cfg-1".into(),
        outcome_positive: true,
    })
}

fn no_judgments(_s: &Session) -> PolicyJudgments {
    PolicyJudgments::none()
}

fn replay(entries: &Vec<LogEntry>, payloads: Vec<MessagePayload>, checkpoint: Checkpoint) -> Result<Session, macp_runtime::error::MacpError> {
    let registry = make_registry();
    replay_session("s1", entries, payloads, checkpoint, &registry, None, &no_judgments)
}

fn seen(session: &Session, id: &str) -> bool {
    session.seen_message_ids.iter().any(|m| m == id)
}

#[test]
fn replay_rebuilds_decision_session() {
    let entries = vec![
        incoming_entry("m1", "SessionStart", "agent://orchestrator", 1000),
        incoming_entry("m2", "Proposal", "agent://orchestrator", 2000),
        incoming_entry("m3", "Vote", "agent://fraud", 3000),
        incoming_entry("m4", "Commitment", "agent://orchestrator", 4000),
    ];
    let payloads = vec![start_payload(), proposal(), vote("agreed"), commitment()];
    let session = replay(&entries, payloads, Checkpoint::Absent).unwrap();
    assert_eq!(session.state, SessionState::Resolved);
    assert_eq!(session.session_id, "s1");
    assert!(seen(&session, "m1"));
    assert!(seen(&session, "m2"));
    assert!(seen(&session, "m3"));
    assert!(seen(&session, "m4"));
    assert!(session.resolution.is_some());
}

#[test]
fn replay_preserves_original_ttl() {
    let original_time = 1_700_000_000_000i64;
    let entries = vec![incoming_entry("m1", "SessionStart", "agent://orchestrator", original_time)];
    let session = replay(&entries, vec![start_payload()], Checkpoint::Absent).unwrap();
    assert_eq!(session.started_at_unix_ms, original_time);
    assert_eq!(session.ttl_expiry, original_time + 60_000);
    assert_eq!(session.ttl_ms, 60_000);
}

#[test]
fn replay_handles_ttl_expired() {
    let entries = vec![
        incoming_entry("m1", "SessionStart", "agent://orchestrator", 1000),
        internal_entry("TtlExpired", 61001),
    ];
    let session = replay(&entries, vec![start_payload(), MessagePayload::Raw], Checkpoint::Absent).unwrap();
    assert_eq!(session.state, SessionState::Expired);
}

#[test]
fn replay_handles_session_cancel() {
    let entries = vec![
        incoming_entry("m1", "SessionStart", "agent://orchestrator", 1000),
        internal_entry("SessionCancel", 5000),
    ];
    let session = replay(&entries, vec![start_payload(), MessagePayload::Raw], Checkpoint::Absent).unwrap();
    assert_eq!(session.state, SessionState::Expired);
}

#[test]
fn replay_fails_when_accepted_history_no_longer_applies() {
    let entries = vec![
        incoming_entry("m1", "SessionStart", "agent://orchestrator", 1000),
        incoming_entry("m2", "Vote", "agent://fraud", 2000),
    ];
    let err = replay(&entries, vec![start_payload(), vote("")], Checkpoint::Absent).err().unwrap();
    // The exact error variant depends on which check fails first (authorize_sender
    // or on_message); what matters is that replay does NOT silently succeed.
    let msg = err.to_string();
    assert!(msg == "InvalidTransition" || msg == "InvalidPayload" || msg == "Forbidden", "unexpected error: {msg}");
}

#[test]
fn replay_empty_log_returns_error() {
    let result = replay(&vec![], vec![], Checkpoint::Absent);
    assert!(result.is_err());
}

#[test]
fn replay_from_checkpoint_restores_state() {
    // Build a session via normal replay first
    let full_entries = vec![
        incoming_entry("m1", "SessionStart", "agent://orchestrator", 1000),
        incoming_entry("m2", "Proposal", "agent://orchestrator", 2000),
    ];
    let full_session = replay(&full_entries, vec![start_payload(), proposal()], Checkpoint::Absent).unwrap();
    let checkpoint = LogEntry {
        message_id: String::new(),
        received_at_ms: 3000,
        sender: "_runtime".into(),
        message_type: "Checkpoint".into(),
        raw_payload: b"{}".to_vec(),
        entry_kind: EntryKind::Checkpoint,
        session_id: "s1".into(),
        mode: "macp.mode.decision.v1".into(),
        macp_version: "1.0".into(),
        timestamp_unix_ms: 3000,
    };
    // Log: SessionStart, Proposal, Checkpoint, Vote
    let entries = vec![
        incoming_entry("m1", "SessionStart", "agent://orchestrator", 1000),
        incoming_entry("m2", "Proposal", "agent://orchestrator", 2000),
        checkpoint,
        incoming_entry("m3", "Vote", "agent://fraud", 4000),
    ];
    assert_eq!(last_checkpoint(&entries), Some(2));
    let payloads = vec![start_payload(), proposal(), MessagePayload::Raw, vote("agreed")];
    let session = replay(&entries, payloads, Checkpoint::Restored(full_session)).unwrap();
    assert_eq!(session.state, SessionState::Open);
    // Should have dedup from checkpoint (m1, m2) plus newly replayed m3
    assert!(seen(&session, "m1"));
    assert!(seen(&session, "m2"));
    assert!(seen(&session, "m3"));
}

#[test]
fn replay_without_checkpoint_still_works() {
    // Ensure logs without checkpoints replay correctly (backward compat)
    let entries = vec![incoming_entry("m1", "SessionStart", "agent://orchestrator", 1000)];
    let session = replay(&entries, vec![start_payload()], Checkpoint::Absent).unwrap();
    assert_eq!(session.state, SessionState::Open);
    assert!(seen(&session, "m1"));
}

#[test]
fn replay_resumes_from_usable_checkpoint_without_start() {
    // A checkpoint that carries its policy binding is resumed directly: only
    // the entries after it are replayed.
    let base = vec![
        incoming_entry("m1", "SessionStart", "agent://orchestrator", 1000),
        incoming_entry("m2", "Proposal", "agent://orchestrator", 2000),
    ];
    let mut restored = replay(&base, vec![start_payload(), proposal()], Checkpoint::Absent).unwrap();
    restored.policy_version = String::new();
    restored.session_id = "other".into();
    let entries = vec![internal_entry("Checkpoint", 3000), incoming_entry("m3", "Vote", "agent://fraud", 4000)];
    let mut entries = entries;
    entries[0].entry_kind = EntryKind::Checkpoint;
    let session = replay(&entries, vec![MessagePayload::Raw, vote("ok")], Checkpoint::Restored(restored)).unwrap();
    assert_eq!(session.session_id, "s1");
    assert!(seen(&session, "m3"));
}

#[test]
fn undecodable_checkpoint_is_refused() {
    let mut entries = vec![incoming_entry("m1", "SessionStart", "agent://orchestrator", 1000), internal_entry("Checkpoint", 2000)];
    entries[1].entry_kind = EntryKind::Checkpoint;
    let err = replay(&entries, vec![start_payload(), MessagePayload::Raw], Checkpoint::Undecodable).err().unwrap();
    assert_eq!(err.to_string(), "InvalidPayload");
}

#[test]
fn recovered_session_answers_replayed_ids_as_duplicates() {
    let mut entries = vec![
        incoming_entry("m1", "SessionStart", "agent://orchestrator", 1000),
        incoming_entry("m2", "Proposal", "agent://orchestrator", 2000),
    ];
    let sid = "0b3c9a2e-8d7f-4c61-9a1e-2f4b6c8d0e1a";
    for e in entries.iter_mut() {
        e.session_id = sid.into();
    }
    let registry = make_registry();
    let session =
        replay_session(sid, &entries, vec![start_payload(), proposal()], Checkpoint::Absent, &registry, None, &no_judgments)
            .unwrap();
    let mut rt = Runtime::new();
    rt.insert_recovered_session(sid.into(), session);
    let env = Envelope {
        macp_version: "1.0".into(),
        mode: "macp.mode.decision.v1".into(),
        message_type: "Proposal".into(),
        message_id: "m2".into(),
        session_id: sid.into(),
        sender: "agent://orchestrator".into(),
        timestamp_unix_ms: 2000,
        payload: vec![1],
    };
    let result = rt.apply_message(&env, proposal(), &PolicyJudgments::none(), 2500).unwrap();
    assert!(result.duplicate);
    assert_eq!(result.session_state, SessionState::Open);
}
