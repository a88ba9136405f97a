//! Coordination modes.
pub mod decision;
pub mod handoff;
pub mod multi_round;
pub mod passthrough;
pub mod proposal;
pub mod quorum;
pub mod task;
pub mod util;

use vstd::prelude::*;
use crate::error::MacpError;
use crate::pb::{Envelope, MessagePayload, ModeDescriptor};
use crate::session::{ModeState, Session, SessionState};
use crate::text::{owned, seq_has};

verus! {

/// What a mode did to the session when it accepted a message.
#[derive(Debug, Clone, Copy, PartialEq, Eq, Structural)]
pub enum ModeResponse {
    /// No state change.
    NoOp,
    /// The mode state was replaced.
    PersistState,
    /// The session was resolved with resolution data.
    Resolve,
    /// The mode state was replaced and the session resolved.
    PersistAndResolve,
}

/// Outcomes of a bound policy's floating-point comparisons, worked out by the
/// caller on the session's current mode state (the rules hold their doubles as
/// bit patterns; these comparisons need double arithmetic).
pub struct PolicyJudgments {
    /// Decision: `check_quorum(voting.quorum.type, voting.quorum.value,
    /// unique voters, participants)`.
    pub vote_quorum_met: bool,
    /// Decision: approvals / votes reaches the majority or supermajority threshold.
    pub vote_ratio_met: bool,
    /// Decision: weighted approvals / weighted total reaches `voting.threshold`;
    /// `None` when the total weight is zero.
    pub weighted_ratio_met: Option<bool>,
    /// Quorum: `ceil(threshold.value / 100 * participants) as u32`.
    pub percentage_threshold: u32,
    /// Quorum: `check_quorum(threshold.type, threshold.value, effective voters,
    /// participants)`.
    pub quorum_threshold_met: bool,
    /// Decision: the figures behind `vote_ratio_met`, as its reason shows
    /// them (`"50.0% approve (threshold: 50.0%)"` when met,
    /// `"50.0% approve, need >= 60.0%"` when not).
    pub vote_ratio_figures: String,
    /// Decision: the figures behind `weighted_ratio_met`, in the same form
    /// with `weighted approve`.
    pub weighted_ratio_figures: String,
    /// Decision: the minimum confidence, to two decimals.
    pub confidence_figure: String,
    /// Decision: the vote quorum's value as a double prints.
    pub vote_quorum_figure: String,
    /// Quorum: the threshold's value as a double prints.
    pub quorum_threshold_figure: String,
}

impl PolicyJudgments {
    /// Judgments for a session with no policy-driven comparisons.
    pub fn none() -> (r: Self)
        ensures
            !r.vote_quorum_met,
            !r.vote_ratio_met,
            r.weighted_ratio_met is None,
            r.percentage_threshold == 0,
            !r.quorum_threshold_met,
            r.vote_ratio_figures@.len() == 0,
            r.weighted_ratio_figures@.len() == 0,
            r.confidence_figure@.len() == 0,
            r.vote_quorum_figure@.len() == 0,
            r.quorum_threshold_figure@.len() == 0,
    {
        PolicyJudgments {
            vote_quorum_met: false,
            vote_ratio_met: false,
            weighted_ratio_met: None,
            percentage_threshold: 0,
            quorum_threshold_met: false,
            vote_ratio_figures: String::new(),
            weighted_ratio_figures: String::new(),
            confidence_figure: String::new(),
            vote_quorum_figure: String::new(),
            quorum_threshold_figure: String::new(),
        }
    }
}

/// The default sender rule: when the session declares participants, only they may send.
pub open spec fn default_sender_allowed(session: Session, sender: Seq<char>) -> bool {
    session.participants@.len() == 0 || seq_has(session.participants@, sender)
}

/// All fields but the mode state, resolution and lifecycle state are unchanged.
pub open spec fn same_bindings(a: Session, b: Session) -> bool {
    &&& a.session_id == b.session_id
    &&& a.ttl_expiry == b.ttl_expiry
    &&& a.ttl_ms == b.ttl_ms
    &&& a.started_at_unix_ms == b.started_at_unix_ms
    &&& a.mode == b.mode
    &&& a.participants == b.participants
    &&& a.seen_message_ids == b.seen_message_ids
    &&& a.intent == b.intent
    &&& a.mode_version == b.mode_version
    &&& a.configuration_version == b.configuration_version
    &&& a.policy_version == b.policy_version
    &&& a.context == b.context
    &&& a.roots == b.roots
    &&& a.initiator_sender == b.initiator_sender
    &&& a.participant_message_counts == b.participant_message_counts
    &&& a.participant_last_seen == b.participant_last_seen
    &&& a.policy_definition == b.policy_definition
}

/// The session is resolved with the envelope's payload as resolution.
pub open spec fn resolved_with(before: Session, after: Session, resolution: Seq<u8>) -> bool {
    &&& after.state == SessionState::Resolved
    &&& after.resolution matches Some(r) && r@ == resolution
}

/// Behaviour common to coordination modes. Modes receive immutable session
/// references and return a [`ModeResponse`]; the runtime applies it.
pub trait Mode {
    /// Validate a new session and store the mode's initial state in it.
    fn on_session_start(&self, session: &mut Session, env: &Envelope) -> Result<ModeResponse, MacpError>;

    /// Validate a message and, when it is accepted, apply it to the session
    /// (mode state and resolution). A rejected message leaves the session as it was.
    fn on_message(
        &self,
        session: &mut Session,
        env: &Envelope,
        payload: MessagePayload,
        judgments: &PolicyJudgments,
    ) -> Result<ModeResponse, MacpError>;

    /// Authorize the sender for this message.
    fn authorize_sender(&self, session: &Session, env: &Envelope) -> (r: Result<(), MacpError>)
        default_ensures
            r is Ok <==> default_sender_allowed(*session, env.sender@),
            r matches Err(e) ==> e == MacpError::Forbidden,
    {
        if session.participants.len() != 0 && !util::is_declared_participant(
            &session.participants,
            env.sender.as_str(),
        ) {
            return Err(MacpError::Forbidden);
        }
        Ok(())
    }
}

/// The canonical standards-track modes implemented by this runtime, in order.
pub open spec fn standard_mode_name_seq() -> Seq<Seq<char>> {
    seq![
        "macp.mode.decision.v1"@,
        "macp.mode.proposal.v1"@,
        "macp.mode.task.v1"@,
        "macp.mode.handoff.v1"@,
        "macp.mode.quorum.v1"@,
    ]
}

/// The canonical standards-track mode names.
pub fn standard_mode_names() -> (r: Vec<&'static str>)
    ensures
        r@.len() == 5,
        forall|i: int| 0 <= i < 5 ==> (#[trigger] r@[i])@ == standard_mode_name_seq()[i],
{
    let mut v = Vec::new();
    v.push("macp.mode.decision.v1");
    v.push("macp.mode.proposal.v1");
    v.push("macp.mode.task.v1");
    v.push("macp.mode.handoff.v1");
    v.push("macp.mode.quorum.v1");
    v
}

fn strings(items: &[&'static str]) -> (r: Vec<String>)
    ensures
        r@.len() == items@.len(),
        forall|i: int| 0 <= i < items@.len() ==> (#[trigger] r@[i])@ == items@[i]@,
{
    let mut v: Vec<String> = Vec::new();
    let n = items.len();
    let mut i: usize = 0;
    while i < n
        invariant
            n == items@.len(),
            i <= n,
            v@.len() == i,
            forall|j: int| 0 <= j < i ==> (#[trigger] v@[j])@ == items@[j]@,
        decreases n - i,
    {
        v.push(owned(items[i]));
        i = i + 1;
    }
    v
}

fn protobuf_schema_uris() -> (r: Vec<(String, String)>)
    ensures
        r@.len() == 1,
        r@[0].0@ == "protobuf"@,
        r@[0].1@ == "buf.build/multiagentcoordinationprotocol/macp"@,
{
    let mut v = Vec::new();
    v.push((owned("protobuf"), owned("buf.build/multiagentcoordinationprotocol/macp")));
    v
}

/// The views of a list of strings.
pub open spec fn string_views(v: Seq<String>) -> Seq<Seq<char>> {
    v.map_values(|s: String| s@)
}

/// `d` describes `mode` exactly as given: version `1.0.0`, the title,
/// description, determinism class, participant model and message types
/// given, `Commitment` as its only terminal message type, and the MACP
/// protobuf schema registry as its only schema URI.
pub open spec fn descriptor_is(
    d: ModeDescriptor,
    mode: Seq<char>,
    title: Seq<char>,
    description: Seq<char>,
    determinism_class: Seq<char>,
    participant_model: Seq<char>,
    message_types: Seq<Seq<char>>,
) -> bool {
    &&& d.mode@ == mode
    &&& d.mode_version@ == "1.0.0"@
    &&& d.title@ == title
    &&& d.description@ == description
    &&& d.determinism_class@ == determinism_class
    &&& d.participant_model@ == participant_model
    &&& string_views(d.message_types@) == message_types
    &&& string_views(d.terminal_message_types@) == seq!["Commitment"@]
    &&& d.schema_uris@.len() == 1
    &&& d.schema_uris@[0].0@ == "protobuf"@
    &&& d.schema_uris@[0].1@ == "buf.build/multiagentcoordinationprotocol/macp"@
}

fn descriptor(
    mode: &'static str,
    title: &'static str,
    description: &'static str,
    determinism_class: &'static str,
    participant_model: &'static str,
    message_types: &[&'static str],
) -> (r: ModeDescriptor)
    ensures
        descriptor_is(
            r,
            mode@,
            title@,
            description@,
            determinism_class@,
            participant_model@,
            message_types@.map_values(|s: &'static str| s@),
        ),
        r.message_types@.len() == message_types@.len(),
        forall|i: int|
            0 <= i < message_types@.len() ==> (#[trigger] r.message_types@[i])@
                == message_types@[i]@,
        r.terminal_message_types@.len() == 1,
        r.terminal_message_types@[0]@ == "Commitment"@,
{
    let mut terminal = Vec::new();
    terminal.push(owned("Commitment"));
    let types = strings(message_types);
    let r = ModeDescriptor {
        mode: owned(mode),
        mode_version: owned("1.0.0"),
        title: owned(title),
        description: owned(description),
        determinism_class: owned(determinism_class),
        participant_model: owned(participant_model),
        message_types: types,
        terminal_message_types: terminal,
        schema_uris: protobuf_schema_uris(),
    };
    assert(string_views(r.message_types@) =~= message_types@.map_values(|s: &'static str| s@));
    assert(string_views(r.terminal_message_types@) =~= seq!["Commitment"@]);
    r
}

/// Descriptors of the five standards-track modes, in canonical order, each
/// stated in full.
pub fn standard_mode_descriptors() -> (r: Vec<ModeDescriptor>)
    ensures
        r@.len() == 5,
        forall|i: int|
            0 <= i < 5 ==> {
                &&& (#[trigger] r@[i]).mode@ == standard_mode_name_seq()[i]
                &&& r@[i].mode_version@ == "1.0.0"@
                &&& r@[i].message_types@.len() > 0
                &&& r@[i].message_types@[0]@ == "SessionStart"@
                &&& r@[i].message_types@.last()@ == "Commitment"@
                &&& r@[i].terminal_message_types@.len() == 1
                &&& r@[i].terminal_message_types@[0]@ == "Commitment"@
            },
        descriptor_is(
            r@[0],
            "macp.mode.decision.v1"@,
            "Decision Mode"@,
            "Structured decision making with proposals, evaluations, objections, votes, and a terminal Commitment."@,
            "semantic-deterministic"@,
            "declared"@,
            seq!["SessionStart"@, "Proposal"@, "Evaluation"@, "Objection"@, "Vote"@, "Commitment"@],
        ),
        descriptor_is(
            r@[1],
            "macp.mode.proposal.v1"@,
            "Proposal Mode"@,
            "Negotiation with proposals, counterproposals, accepts, rejects, withdrawals, and a terminal Commitment."@,
            "semantic-deterministic"@,
            "peer"@,
            seq!["SessionStart"@, "Proposal"@, "CounterProposal"@, "Accept"@, "Reject"@, "Withdraw"@, "Commitment"@],
        ),
        descriptor_is(
            r@[2],
            "macp.mode.task.v1"@,
            "Task Mode"@,
            "One bounded delegated task with assignee responses, progress, completion/failure reports, and a terminal Commitment."@,
            "structural-only"@,
            "orchestrated"@,
            seq!["SessionStart"@, "TaskRequest"@, "TaskAccept"@, "TaskReject"@, "TaskUpdate"@, "TaskComplete"@, "TaskFail"@, "Commitment"@],
        ),
        descriptor_is(
            r@[3],
            "macp.mode.handoff.v1"@,
            "Handoff Mode"@,
            "Scoped responsibility transfer with handoff offers, context, target responses, and a terminal Commitment."@,
            "context-frozen"@,
            "delegated"@,
            seq!["SessionStart"@, "HandoffOffer"@, "HandoffContext"@, "HandoffAccept"@, "HandoffDecline"@, "Commitment"@],
        ),
        descriptor_is(
            r@[4],
            "macp.mode.quorum.v1"@,
            "Quorum Mode"@,
            "Threshold approval with one approval request, participant ballots, and a terminal Commitment."@,
            "semantic-deterministic"@,
            "quorum"@,
            seq!["SessionStart"@, "ApprovalRequest"@, "Approve"@, "Reject"@, "Abstain"@, "Commitment"@],
        ),
{
    let mut v = Vec::new();
    let d0 = descriptor(
        "macp.mode.decision.v1",
        "Decision Mode",
        "Structured decision making with proposals, evaluations, objections, votes, and a terminal Commitment.",
        "semantic-deterministic",
        "declared",
        &["SessionStart", "Proposal", "Evaluation", "Objection", "Vote", "Commitment"],
    );
    assert(string_views(d0.message_types@) =~= seq!["SessionStart"@, "Proposal"@, "Evaluation"@, "Objection"@, "Vote"@, "Commitment"@]);
    v.push(d0);
    let d1 = descriptor(
        "macp.mode.proposal.v1",
        "Proposal Mode",
        "Negotiation with proposals, counterproposals, accepts, rejects, withdrawals, and a terminal Commitment.",
        "semantic-deterministic",
        "peer",
        &["SessionStart", "Proposal", "CounterProposal", "Accept", "Reject", "Withdraw", "Commitment"],
    );
    assert(string_views(d1.message_types@) =~= seq!["SessionStart"@, "Proposal"@, "CounterProposal"@, "Accept"@, "Reject"@, "Withdraw"@, "Commitment"@]);
    v.push(d1);
    let d2 = descriptor(
        "macp.mode.task.v1",
        "Task Mode",
        "One bounded delegated task with assignee responses, progress, completion/failure reports, and a terminal Commitment.",
        "structural-only",
        "orchestrated",
        &["SessionStart", "TaskRequest", "TaskAccept", "TaskReject", "TaskUpdate", "TaskComplete", "TaskFail", "Commitment"],
    );
    assert(string_views(d2.message_types@) =~= seq!["SessionStart"@, "TaskRequest"@, "TaskAccept"@, "TaskReject"@, "TaskUpdate"@, "TaskComplete"@, "TaskFail"@, "Commitment"@]);
    v.push(d2);
    let d3 = descriptor(
        "macp.mode.handoff.v1",
        "Handoff Mode",
        "Scoped responsibility transfer with handoff offers, context, target responses, and a terminal Commitment.",
        "context-frozen",
        "delegated",
        &["SessionStart", "HandoffOffer", "HandoffContext", "HandoffAccept", "HandoffDecline", "Commitment"],
    );
    assert(string_views(d3.message_types@) =~= seq!["SessionStart"@, "HandoffOffer"@, "HandoffContext"@, "HandoffAccept"@, "HandoffDecline"@, "Commitment"@]);
    v.push(d3);
    let d4 = descriptor(
        "macp.mode.quorum.v1",
        "Quorum Mode",
        "Threshold approval with one approval request, participant ballots, and a terminal Commitment.",
        "semantic-deterministic",
        "quorum",
        &["SessionStart", "ApprovalRequest", "Approve", "Reject", "Abstain", "Commitment"],
    );
    assert(string_views(d4.message_types@) =~= seq!["SessionStart"@, "ApprovalRequest"@, "Approve"@, "Reject"@, "Abstain"@, "Commitment"@]);
    v.push(d4);
    v
}

/// The built-in extension modes shipped with this runtime.
pub fn extension_mode_names() -> (r: Vec<&'static str>)
    ensures
        r@.len() == 1,
        r@[0]@ == "ext.multi_round.v1"@,
{
    let mut v = Vec::new();
    v.push("ext.multi_round.v1");
    v
}

/// Descriptors of the built-in extension modes: multi-round convergence,
/// which resolves on a Contribute once all values agree.
pub fn extension_mode_descriptors() -> (r: Vec<ModeDescriptor>)
    ensures
        r@.len() == 1,
        r@[0].mode@ == "ext.multi_round.v1"@,
        r@[0].mode_version@ == "1.0.0"@,
        r@[0].title@ == "Multi-Round Convergence Mode"@,
        r@[0].description@
            == "Participants contribute values over rounds until every participant has contributed and all values agree."@,
        r@[0].determinism_class@ == "semantic-deterministic"@,
        r@[0].participant_model@ == "declared"@,
        string_views(r@[0].message_types@) == seq!["SessionStart"@, "Contribute"@],
        string_views(r@[0].terminal_message_types@) == seq!["Contribute"@],
        r@[0].schema_uris@.len() == 1,
        r@[0].schema_uris@[0].0@ == "protobuf"@,
        r@[0].schema_uris@[0].1@ == "buf.build/multiagentcoordinationprotocol/macp"@,
        r@[0].message_types@.len() == 2,
        r@[0].message_types@[0]@ == "SessionStart"@,
        r@[0].message_types@[1]@ == "Contribute"@,
        r@[0].terminal_message_types@.len() == 1,
        r@[0].terminal_message_types@[0]@ == "Contribute"@,
{
    let mut d = descriptor(
        "ext.multi_round.v1",
        "Multi-Round Convergence Mode",
        "Participants contribute values over rounds until every participant has contributed and all values agree.",
        "semantic-deterministic",
        "declared",
        &["SessionStart", "Contribute"],
    );
    assert(string_views(d.message_types@) =~= seq!["SessionStart"@, "Contribute"@]);
    let mut terminal = Vec::new();
    terminal.push(owned("Contribute"));
    d.terminal_message_types = terminal;
    assert(string_views(d.terminal_message_types@) =~= seq!["Contribute"@]);
    let mut v = Vec::new();
    v.push(d);
    v
}

} // verus!
