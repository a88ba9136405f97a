//! Protocol messages as the coordination logic reads them. Wire decoding of
//! envelope payloads happens before the logic runs; a payload that did not
//! decode reaches the logic as [`MessagePayload::Undecodable`].
use vstd::prelude::*;

verus! {

/// The MACP envelope.
pub struct Envelope {
    pub macp_version: String,
    pub mode: String,
    pub message_type: String,
    pub message_id: String,
    pub session_id: String,
    pub sender: String,
    pub timestamp_unix_ms: i64,
    pub payload: Vec<u8>,
}

pub struct Root {
    pub uri: String,
    pub name: String,
}

pub struct SessionStartPayload {
    pub intent: String,
    pub participants: Vec<String>,
    pub mode_version: String,
    pub configuration_version: String,
    pub policy_version: String,
    pub ttl_ms: i64,
    pub context: Vec<u8>,
    pub roots: Vec<Root>,
}

pub struct CommitmentPayload {
    pub commitment_id: String,
    pub action: String,
    pub authority_scope: String,
    pub reason: String,
    pub mode_version: String,
    pub policy_version: String,
    pub configuration_version: String,
    pub outcome_positive: bool,
}

pub struct SignalPayload {
    pub signal_type: String,
    pub data: Vec<u8>,
}

pub struct SessionCancelPayload {
    pub reason: String,
    pub cancelled_by: String,
}

/// A mode descriptor as advertised by discovery RPCs.
pub struct ModeDescriptor {
    pub mode: String,
    pub mode_version: String,
    pub title: String,
    pub description: String,
    pub determinism_class: String,
    pub participant_model: String,
    pub message_types: Vec<String>,
    pub terminal_message_types: Vec<String>,
    /// Schema URIs keyed by schema kind.
    pub schema_uris: Vec<(String, String)>,
}

// ── Decision mode ──────────────────────────────────────────────────

pub struct DecisionProposalPayload {
    pub proposal_id: String,
    pub option: String,
    pub rationale: String,
    pub supporting_data: Vec<u8>,
}

pub struct EvaluationPayload {
    pub proposal_id: String,
    pub recommendation: String,
    /// IEEE-754 bit pattern of the confidence value.
    pub confidence_bits: u64,
    pub reason: String,
}

pub struct ObjectionPayload {
    pub proposal_id: String,
    pub reason: String,
    pub severity: String,
}

pub struct VotePayload {
    pub proposal_id: String,
    pub vote: String,
    pub reason: String,
}

// ── Proposal mode ──────────────────────────────────────────────────

pub struct ProposalPayload {
    pub proposal_id: String,
    pub title: String,
    pub summary: String,
    pub details: Vec<u8>,
    pub tags: Vec<String>,
}

pub struct CounterProposalPayload {
    pub proposal_id: String,
    pub supersedes_proposal_id: String,
    pub title: String,
    pub summary: String,
    pub details: Vec<u8>,
}

pub struct AcceptPayload {
    pub proposal_id: String,
    pub reason: String,
}

pub struct ProposalRejectPayload {
    pub proposal_id: String,
    pub terminal: bool,
    pub reason: String,
}

pub struct WithdrawPayload {
    pub proposal_id: String,
    pub reason: String,
}

// ── Task mode ──────────────────────────────────────────────────────

pub struct TaskRequestPayload {
    pub task_id: String,
    pub title: String,
    pub instructions: String,
    pub requested_assignee: String,
    pub input: Vec<u8>,
    pub deadline_unix_ms: i64,
}

pub struct TaskAcceptPayload {
    pub task_id: String,
    pub assignee: String,
}

pub struct TaskRejectPayload {
    pub task_id: String,
    pub assignee: String,
    pub reason: String,
}

pub struct TaskUpdatePayload {
    pub task_id: String,
    pub status: String,
    /// IEEE-754 bit pattern of the progress value.
    pub progress_bits: u64,
    pub message: String,
    pub partial_output: Vec<u8>,
}

pub struct TaskCompletePayload {
    pub task_id: String,
    pub assignee: String,
    pub output: Vec<u8>,
    pub summary: String,
}

pub struct TaskFailPayload {
    pub task_id: String,
    pub assignee: String,
    pub error_code: String,
    pub reason: String,
    pub retryable: bool,
}

// ── Handoff mode ───────────────────────────────────────────────────

pub struct HandoffOfferPayload {
    pub handoff_id: String,
    pub target_participant: String,
    pub scope: String,
    pub reason: String,
}

pub struct HandoffContextPayload {
    pub handoff_id: String,
    pub content_type: String,
    pub context: Vec<u8>,
}

pub struct HandoffAcceptPayload {
    pub handoff_id: String,
    pub accepted_by: String,
    pub reason: String,
}

pub struct HandoffDeclinePayload {
    pub handoff_id: String,
    pub declined_by: String,
    pub reason: String,
}

// ── Quorum mode ────────────────────────────────────────────────────

pub struct ApprovalRequestPayload {
    pub request_id: String,
    pub action: String,
    pub summary: String,
    pub details: Vec<u8>,
    pub required_approvals: u32,
}

/// The body shared by the Approve, Reject and Abstain ballots.
pub struct BallotPayload {
    pub request_id: String,
    pub reason: String,
}

// ── Multi-round extension ──────────────────────────────────────────

/// The JSON body `{"value": ...}` of a Contribute message.
pub struct ContributePayload {
    pub value: String,
}

/// An envelope payload after wire decoding, as the payload schema named by the
/// session's mode and the envelope's message type reads it.
pub enum MessagePayload {
    /// The bytes did not decode under the expected schema.
    Undecodable,
    /// The mode reads the raw bytes itself (or ignores them).
    Raw,
    SessionStart(SessionStartPayload),
    Commitment(CommitmentPayload),
    DecisionProposal(DecisionProposalPayload),
    Evaluation(EvaluationPayload),
    Objection(ObjectionPayload),
    Vote(VotePayload),
    Proposal(ProposalPayload),
    CounterProposal(CounterProposalPayload),
    Accept(AcceptPayload),
    ProposalReject(ProposalRejectPayload),
    Withdraw(WithdrawPayload),
    TaskRequest(TaskRequestPayload),
    TaskAccept(TaskAcceptPayload),
    TaskReject(TaskRejectPayload),
    TaskUpdate(TaskUpdatePayload),
    TaskComplete(TaskCompletePayload),
    TaskFail(TaskFailPayload),
    HandoffOffer(HandoffOfferPayload),
    HandoffContext(HandoffContextPayload),
    HandoffAccept(HandoffAcceptPayload),
    HandoffDecline(HandoffDeclinePayload),
    ApprovalRequest(ApprovalRequestPayload),
    Approve(BallotPayload),
    QuorumReject(BallotPayload),
    Abstain(BallotPayload),
    Contribute(ContributePayload),
    Signal(SignalPayload),
    Progress,
}

} // verus!
