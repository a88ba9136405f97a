use macp_runtime::error::MacpError;
use macp_runtime::keyed::KeyedVec;
use macp_runtime::mode::proposal::{ProposalDisposition, ProposalMode, ProposalPhase, ProposalState};
use macp_runtime::mode::{Mode, ModeResponse, PolicyJudgments};
use macp_runtime::pb::{
    AcceptPayload, CommitmentPayload, CounterProposalPayload, Envelope, MessagePayload, ProposalPayload,
    ProposalRejectPayload, WithdrawPayload,
};
use macp_runtime::policy::defaults::default_policy;
use macp_runtime::session::{ModeState, Session, SessionState};

fn base_session() -> Session {
    Session {
        session_id: "s1".into(),
        state: SessionState::Open,
        ttl_expiry: i64::MAX,
        ttl_ms: 60_000,
        started_at_unix_ms: 0,
        resolution: None,
        mode: "macp.mode.proposal.v1".into(),
        mode_state: ModeState::Empty,
        participants: vec!["agent://buyer".into(), "agent://seller".into()],
        seen_message_ids: Vec::new(),
        intent: String::new(),
        mode_version: "1.0.0".into(),
        configuration_version: "cfg-1".into(),
        policy_version: "policy-1".into(),
        context: vec![],
        roots: vec![],
        initiator_sender: "agent://buyer".into(),
        participant_message_counts: KeyedVec::new(),
        participant_last_seen: KeyedVec::new(),
        policy_definition: None,
    }
}

fn state(session: &Session) -> &ProposalState {
    match &session.mode_state {
        ModeState::Proposal(s) => s,
        _ => panic!("no proposal state"),
    }
}

fn env(sender: &str, message_type: &str, payload: Vec<u8>) -> Envelope {
    Envelope {
        macp_version: "1.0".into(),
        mode: "macp.mode.proposal.v1".into(),
        message_type: message_type.into(),
        message_id: format!("{}-{}", sender, message_type),
        session_id: "s1".into(),
        sender: sender.into(),
        timestamp_unix_ms: 0,
        payload,
    }
}

fn send(session: &mut Session, sender: &str, message_type: &str, payload: MessagePayload) -> Result<ModeResponse, MacpError> {
    ProposalMode.on_message(session, &env(sender, message_type, vec![1]), payload, &PolicyJudgments::none())
}

fn commitment(session: &Session, action: &str) -> MessagePayload {
    let outcome_positive = !action.contains("rejected") && !action.contains("failed") && !action.contains("declined");
    MessagePayload::Commitment(CommitmentPayload {
        commitment_id: "c1".into(),
        action: action.into(),
        authority_scope: "commercial".into(),
        reason: "bound".into(),
        mode_version: session.mode_version.clone(),
        policy_version: session.policy_version.clone(),
        configuration_version: session.configuration_version.clone(),
        outcome_positive,
    })
}

fn make_proposal(id: &str) -> MessagePayload {
    MessagePayload::Proposal(ProposalPayload {
        proposal_id: id.into(),
        title: format!("offer-{id}"),
        summary: "summary".into(),
        details: vec![],
        tags: vec![],
    })
}

fn make_counter_proposal(id: &str, supersedes: &str) -> MessagePayload {
    MessagePayload::CounterProposal(CounterProposalPayload {
        proposal_id: id.into(),
        supersedes_proposal_id: supersedes.into(),
        title: format!("counter-{id}"),
        summary: "counter".into(),
        details: vec![],
    })
}

fn make_accept(id: &str) -> MessagePayload {
    MessagePayload::Accept(AcceptPayload { proposal_id: id.into(), reason: String::new() })
}

fn make_reject(id: &str, terminal: bool) -> MessagePayload {
    MessagePayload::ProposalReject(ProposalRejectPayload { proposal_id: id.into(), terminal, reason: "no".into() })
}

fn make_withdraw(id: &str) -> MessagePayload {
    MessagePayload::Withdraw(WithdrawPayload { proposal_id: id.into(), reason: "changed mind".into() })
}

#[test]
fn proposal_session_start_requires_participants() {
    let mode = ProposalMode;
    let mut session = base_session();
    session.participants.clear();
    assert_eq!(
        mode.on_session_start(&mut session, &env("agent://buyer", "SessionStart", vec![]))
            .unwrap_err()
            .to_string(),
        "InvalidPayload"
    );
}

#[test]
fn commitment_requires_acceptance_convergence() {
    let mode = ProposalMode;
    let mut session = base_session();
    mode.on_session_start(&mut session, &env("agent://buyer", "SessionStart", vec![]))
        .unwrap();
    send(&mut session, "agent://seller", "Proposal", make_proposal("p1"))
        .unwrap();

    assert_eq!(
        {
        let payload = commitment(&session, "proposal.accepted");
        send(&mut session, "agent://buyer", "Commitment", payload)
    }
        .unwrap_err()
        .to_string(),
        "InvalidPayload"
    );

    send(&mut session, "agent://buyer", "Accept", make_accept("p1"))
        .unwrap();
    send(&mut session, "agent://seller", "Accept", make_accept("p1"))
        .unwrap();
    {
        let payload = commitment(&session, "proposal.accepted");
        send(&mut session, "agent://buyer", "Commitment", payload)
    }
    .unwrap();
}

#[test]
fn terminal_rejection_allows_negative_commitment() {
    let mode = ProposalMode;
    let mut session = base_session();
    mode.on_session_start(&mut session, &env("agent://buyer", "SessionStart", vec![]))
        .unwrap();
    send(&mut session, "agent://seller", "Proposal", make_proposal("p1"))
        .unwrap();
    send(&mut session, "agent://buyer", "Reject", make_reject("p1", true))
        .unwrap();
    {
        let payload = commitment(&session, "proposal.rejected");
        send(&mut session, "agent://buyer", "Commitment", payload)
    }
    .unwrap();
}

#[test]
fn withdraw_clears_terminal_rejections() {
    let mode = ProposalMode;
    let mut session = base_session();
    mode.on_session_start(&mut session, &env("agent://buyer", "SessionStart", vec![]))
        .unwrap();
    // Seller proposes p1
    send(&mut session, "agent://seller", "Proposal", make_proposal("p1"))
        .unwrap();
    // Buyer terminally rejects p1
    send(&mut session, "agent://buyer", "Reject", make_reject("p1", true))
        .unwrap();
    // Seller withdraws p1 — terminal rejection should be cleared
    send(&mut session, "agent://seller", "Withdraw", make_withdraw("p1"))
        .unwrap();
    // Seller proposes p2
    send(&mut session, "agent://seller", "Proposal", make_proposal("p2"))
        .unwrap();
    // Commitment should NOT be ready (no acceptance convergence, no terminal rejection)
    let err = {
        let payload = commitment(&session, "proposal.rejected");
        send(&mut session, "agent://buyer", "Commitment", payload)
    }
        .unwrap_err();
    assert_eq!(err.to_string(), "InvalidPayload");
}

#[test]
fn proposal_empty_proposal_id_rejected() {
    let mode = ProposalMode;
    let mut session = base_session();
    mode.on_session_start(&mut session, &env("agent://buyer", "SessionStart", vec![]))
        .unwrap();
    let empty = MessagePayload::Proposal(ProposalPayload {
        proposal_id: "".into(),
        title: "title".into(),
        summary: "summary".into(),
        details: vec![],
        tags: vec![],
    });
    assert_eq!(
        send(&mut session, "agent://seller", "Proposal", empty)
            .unwrap_err()
            .to_string(),
        "InvalidPayload"
    );
}

#[test]
fn counterproposal_requires_valid_supersedes() {
    let mode = ProposalMode;
    let mut session = base_session();
    mode.on_session_start(&mut session, &env("agent://buyer", "SessionStart", vec![]))
        .unwrap();
    send(&mut session, "agent://seller", "Proposal", make_proposal("p1"))
        .unwrap();
    // Supersedes non-existent proposal
    let bad_counter = make_counter_proposal("p2", "nonexistent");
    assert_eq!(
        send(&mut session, "agent://buyer", "CounterProposal", bad_counter)
        .unwrap_err()
        .to_string(),
        "InvalidPayload"
    );
}

#[test]
fn counterproposal_chain_works() {
    let mode = ProposalMode;
    let mut session = base_session();
    mode.on_session_start(&mut session, &env("agent://buyer", "SessionStart", vec![]))
        .unwrap();
    send(&mut session, "agent://seller", "Proposal", make_proposal("p1"))
        .unwrap();
    send(&mut session, "agent://buyer", "CounterProposal", make_counter_proposal("p2", "p1"))
        .unwrap();
    // Chain: p3 supersedes p2
    send(&mut session, "agent://seller", "CounterProposal", make_counter_proposal("p3", "p2"))
    .unwrap();
}

#[test]
fn non_terminal_reject_does_not_enable_commitment() {
    let mode = ProposalMode;
    let mut session = base_session();
    mode.on_session_start(&mut session, &env("agent://buyer", "SessionStart", vec![]))
        .unwrap();
    send(&mut session, "agent://seller", "Proposal", make_proposal("p1"))
        .unwrap();
    // Non-terminal reject
    send(&mut session, "agent://buyer", "Reject", make_reject("p1", false))
        .unwrap();
    assert_eq!(
        {
        let payload = commitment(&session, "proposal.rejected");
        send(&mut session, "agent://buyer", "Commitment", payload)
    }
        .unwrap_err()
        .to_string(),
        "InvalidPayload"
    );
}

#[test]
fn non_participant_cannot_propose() {
    let mode = ProposalMode;
    let session = base_session();
    let err = mode.authorize_sender(&session, &env("agent://outsider", "Proposal", vec![]))
        .unwrap_err();
    assert_eq!(err.to_string(), "Forbidden");
}

#[test]
fn proposal_commitment_version_mismatch_rejected() {
    let mode = ProposalMode;
    let mut session = base_session();
    mode.on_session_start(&mut session, &env("agent://buyer", "SessionStart", vec![]))
        .unwrap();
    send(&mut session, "agent://seller", "Proposal", make_proposal("p1"))
        .unwrap();
    send(&mut session, "agent://buyer", "Accept", make_accept("p1"))
        .unwrap();
    send(&mut session, "agent://seller", "Accept", make_accept("p1"))
        .unwrap();
    let bad = MessagePayload::Commitment(CommitmentPayload {
        commitment_id: "c1".into(),
        action: "proposal.accepted".into(),
        authority_scope: "commercial".into(),
        reason: "bound".into(),
        mode_version: "wrong".into(),
        policy_version: session.policy_version.clone(),
        configuration_version: session.configuration_version.clone(),
        outcome_positive: true,
    });
    assert_eq!(
        send(&mut session, "agent://buyer", "Commitment", bad)
            .unwrap_err()
            .to_string(),
        "InvalidPayload"
    );
}

#[test]
fn accept_on_withdrawn_proposal_rejected() {
    let mode = ProposalMode;
    let mut session = base_session();
    mode.on_session_start(&mut session, &env("agent://buyer", "SessionStart", vec![]))
        .unwrap();
    send(&mut session, "agent://seller", "Proposal", make_proposal("p1"))
        .unwrap();
    send(&mut session, "agent://seller", "Withdraw", make_withdraw("p1"))
        .unwrap();
    assert_eq!(
        send(&mut session, "agent://buyer", "Accept", make_accept("p1"))
            .unwrap_err()
            .to_string(),
        "InvalidPayload"
    );
}

#[test]
fn proposal_commitment_from_non_initiator_rejected() {
    let mode = ProposalMode;
    let session = base_session();
    let err = mode.authorize_sender(&session, &env("agent://seller", "Commitment", vec![]))
        .unwrap_err();
    assert_eq!(err.to_string(), "Forbidden");
}

#[test]
fn terminal_rejection_on_different_proposal_survives_withdraw() {
    let mode = ProposalMode;
    let mut session = base_session();
    mode.on_session_start(&mut session, &env("agent://buyer", "SessionStart", vec![]))
        .unwrap();
    // Seller proposes p1 and p2
    send(&mut session, "agent://seller", "Proposal", make_proposal("p1"))
        .unwrap();
    send(&mut session, "agent://seller", "Proposal", make_proposal("p2"))
        .unwrap();
    // Buyer terminally rejects p2
    send(&mut session, "agent://buyer", "Reject", make_reject("p2", true))
        .unwrap();
    // Seller withdraws p1 — p2's terminal rejection survives
    send(&mut session, "agent://seller", "Withdraw", make_withdraw("p1"))
        .unwrap();
    // Commitment should be ready because p2 still has a terminal rejection
    {
        let payload = commitment(&session, "proposal.rejected");
        send(&mut session, "agent://buyer", "Commitment", payload)
    }
    .unwrap();
}

#[test]
fn phase_becomes_converged_when_all_participants_accept_same_live_proposal() {
    let mode = ProposalMode;
    let mut session = base_session();
    mode.on_session_start(&mut session, &env("agent://buyer", "SessionStart", vec![]))
        .unwrap();
    assert_eq!(state(&session).phase, ProposalPhase::Negotiating);

    send(&mut session, "agent://seller", "Proposal", make_proposal("p1"))
        .unwrap();
    assert_eq!(state(&session).phase, ProposalPhase::Negotiating);

    send(&mut session, "agent://buyer", "Accept", make_accept("p1"))
        .unwrap();
    assert_eq!(state(&session).phase, ProposalPhase::Negotiating);

    send(&mut session, "agent://seller", "Accept", make_accept("p1"))
        .unwrap();
    assert_eq!(state(&session).phase, ProposalPhase::Converged);
}

#[test]
fn terminal_reject_sets_terminal_rejected_phase() {
    let mode = ProposalMode;
    let mut session = base_session();
    mode.on_session_start(&mut session, &env("agent://buyer", "SessionStart", vec![]))
        .unwrap();
    send(&mut session, "agent://seller", "Proposal", make_proposal("p1"))
        .unwrap();
    send(&mut session, "agent://buyer", "Reject", make_reject("p1", true))
        .unwrap();
    assert_eq!(state(&session).phase, ProposalPhase::TerminalRejected);
}

#[test]
fn malformed_counterproposal_payload_rejected() {
    let mode = ProposalMode;
    let mut session = base_session();
    mode.on_session_start(&mut session, &env("agent://buyer", "SessionStart", vec![]))
        .unwrap();
    assert_eq!(
        send(&mut session, "agent://seller", "CounterProposal", MessagePayload::Undecodable)
        .unwrap_err()
        .to_string(),
        "InvalidPayload"
    );
}

#[test]
fn policy_blocks_counter_proposal_at_submission_when_limit_exceeded() {
    // max_rounds is enforced both at submission and commitment time.
    let mode = ProposalMode;
    let mut session = base_session();
    let mut policy = default_policy();
    policy.policy_id = "test-limited".into();
    policy.mode = "macp.mode.proposal.v1".into();
    policy.description = "limited".into();
    policy.rules.proposal.counter_proposal.max_rounds = 1;
    session.policy_definition = Some(policy);
    mode.on_session_start(&mut session, &env("agent://buyer", "SessionStart", vec![]))
        .unwrap();
    // Seller proposes p1
    send(&mut session, "agent://seller", "Proposal", make_proposal("p1"))
        .unwrap();
    // Buyer counter-proposes p2 (supersedes p1) -- 1st counter-proposal: allowed
    send(&mut session, "agent://buyer", "CounterProposal", make_counter_proposal("p2", "p1"))
        .unwrap();
    // Seller counter-proposes p3 (supersedes p2) -- 2nd counter-proposal:
    // REJECTED at submission time (max_rounds=1, already 1 counter-proposal)
    let err = send(&mut session, "agent://seller", "CounterProposal", make_counter_proposal("p3", "p2"))
        .unwrap_err();
    assert_eq!(err.to_string(), "InvalidPayload");
}

#[test]
fn counter_proposal_does_not_retire_original() {
    let mode = ProposalMode;
    let mut session = base_session();
    mode.on_session_start(&mut session, &env("agent://buyer", "SessionStart", vec![]))
        .unwrap();
    // Seller proposes p1
    send(&mut session, "agent://seller", "Proposal", make_proposal("p1"))
        .unwrap();
    // Buyer counter-proposes p2, superseding p1
    send(&mut session, "agent://buyer", "CounterProposal", make_counter_proposal("p2", "p1"))
        .unwrap();
    // Verify both proposals are still live in the mode state
    let state = state(&session);
    assert_eq!(state.proposals.len(), 2);
    assert_eq!(state.proposals.get("p1").unwrap().disposition, ProposalDisposition::Live);
    assert_eq!(state.proposals.get("p2").unwrap().disposition, ProposalDisposition::Live);
    assert_eq!(
        state.proposals.get("p2").unwrap().supersedes_proposal_id,
        Some("p1".into())
    );
}

