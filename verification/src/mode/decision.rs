//! Decision Mode (RFC-MACP-0004): proposals, evaluations, objections and votes,
//! closed by a Commitment.
use vstd::prelude::*;
use crate::error::MacpError;
use crate::ieee754::{lt, F64_ONE, F64_ZERO, f64_lt};
use crate::keyed::KeyedVec;
use crate::mode::util::{
    check_commitment_authority, commitment_authorized, is_declared_participant, valid_commitment,
    validate_commitment_payload_for_session,
};
use crate::mode::{resolved_with, same_bindings, Mode, ModeResponse, PolicyJudgments};
use crate::pb::{Envelope, MessagePayload};
use crate::policy::evaluator::{decision_policy_denies, evaluate_decision_commitment};
use crate::session::{ModeState, Session, SessionState};
use crate::text::{
    is_blank, lowercase_of, owned, seq_has, str_eq, str_is_blank, to_lowercase, to_uppercase,
    uppercase_of,
};

verus! {

#[derive(Debug, Clone, Copy, PartialEq, Eq, Structural)]
pub enum DecisionPhase {
    Proposal,
    Evaluation,
    Voting,
    Committed,
}

pub struct Proposal {
    pub proposal_id: String,
    pub option: String,
    pub rationale: String,
    pub sender: String,
}

pub struct Evaluation {
    pub proposal_id: String,
    pub recommendation: String,
    /// Bits of the confidence value.
    pub confidence_bits: u64,
    pub reason: String,
    pub sender: String,
}

pub struct Objection {
    pub proposal_id: String,
    pub reason: String,
    pub severity: String,
    pub sender: String,
}

pub struct Vote {
    pub proposal_id: String,
    pub vote: String,
    pub reason: String,
    pub sender: String,
}

/// Decision state: proposals by id; evaluations, objections and votes in
/// arrival order. Each voter votes at most once per proposal, so the votes
/// stand for a map from (proposal, voter) to vote.
pub struct DecisionState {
    pub proposals: KeyedVec<Proposal>,
    pub evaluations: Vec<Evaluation>,
    pub objections: Vec<Objection>,
    pub votes: Vec<Vote>,
    pub phase: DecisionPhase,
}

/// The abstract decision state.
pub ghost struct DecisionView {
    pub proposals: Map<Seq<char>, Proposal>,
    pub evaluations: Seq<Evaluation>,
    pub objections: Seq<Objection>,
    pub votes: Seq<Vote>,
    pub phase: DecisionPhase,
}

impl View for DecisionState {
    type V = DecisionView;

    open spec fn view(&self) -> DecisionView {
        DecisionView {
            proposals: self.proposals@,
            evaluations: self.evaluations@,
            objections: self.objections@,
            votes: self.votes@,
            phase: self.phase,
        }
    }
}

/// The state of a session that has seen no decision message yet.
pub open spec fn empty_decision() -> DecisionView {
    DecisionView {
        proposals: Map::empty(),
        evaluations: Seq::empty(),
        objections: Seq::empty(),
        votes: Seq::empty(),
        phase: DecisionPhase::Proposal,
    }
}

/// The decision state that a session's stored mode state stands for; `None`
/// when it holds another mode's state.
pub open spec fn decision_view_of(ms: ModeState) -> Option<DecisionView> {
    match ms {
        ModeState::Empty => Some(empty_decision()),
        ModeState::Decision(s) => Some(s@),
        _ => None,
    }
}

/// Valid recommendations (RFC-MACP-0004), upper case.
pub open spec fn is_recommendation(s: Seq<char>) -> bool {
    s == "APPROVE"@ || s == "REVIEW"@ || s == "BLOCK"@ || s == "REJECT"@
}

/// Valid vote values (RFC-MACP-0007), upper case.
pub open spec fn is_vote_value(s: Seq<char>) -> bool {
    s == "APPROVE"@ || s == "REJECT"@ || s == "ABSTAIN"@
}

/// Valid objection severities (RFC-MACP-0004 §2.3), lower case.
pub open spec fn is_severity(s: Seq<char>) -> bool {
    s == "critical"@ || s == "high"@ || s == "medium"@ || s == "low"@
}

/// The confidence lies in `[0.0, 1.0]` (or is NaN, which neither bound rejects).
pub open spec fn confidence_in_range(bits: u64) -> bool {
    !lt(bits, F64_ZERO) && !lt(F64_ONE, bits)
}

/// The stored severity of an objection: `medium` when none is given, else the
/// given one in lower case if it is a known severity.
pub open spec fn stored_severity(severity: Seq<char>) -> Option<Seq<char>> {
    if severity.len() == 0 {
        Some("medium"@)
    } else if is_severity(lowercase_of(severity)) {
        Some(lowercase_of(severity))
    } else {
        None
    }
}

/// Whether the sender already voted on the proposal.
pub open spec fn has_voted(v: DecisionView, proposal_id: Seq<char>, sender: Seq<char>) -> bool {
    exists|i: int|
        0 <= i < v.votes.len() && (#[trigger] v.votes[i]).proposal_id@ == proposal_id
            && v.votes[i].sender@ == sender
}

/// Why a message is refused in the given decision state, or `None` when it is accepted.
pub open spec fn decision_rejection(
    session: Session,
    v: DecisionView,
    env: Envelope,
    payload: MessagePayload,
    j: PolicyJudgments,
) -> Option<MacpError> {
    let mt = env.message_type@;
    if v.phase == DecisionPhase::Committed {
        Some(MacpError::SessionNotOpen)
    } else if mt == "Proposal"@ {
        if v.phase == DecisionPhase::Voting {
            Some(MacpError::InvalidPayload)
        } else {
            match payload {
                MessagePayload::DecisionProposal(p) => if is_blank(p.proposal_id@) || is_blank(
                    p.option@,
                ) || v.proposals.contains_key(p.proposal_id@) {
                    Some(MacpError::InvalidPayload)
                } else {
                    None
                },
                _ => Some(MacpError::InvalidPayload),
            }
        }
    } else if mt == "Evaluation"@ {
        match payload {
            MessagePayload::Evaluation(p) => if !is_recommendation(uppercase_of(p.recommendation@))
                || !confidence_in_range(p.confidence_bits) || v.phase != DecisionPhase::Evaluation
                || !v.proposals.contains_key(p.proposal_id@) {
                Some(MacpError::InvalidPayload)
            } else {
                None
            },
            _ => Some(MacpError::InvalidPayload),
        }
    } else if mt == "Objection"@ {
        match payload {
            MessagePayload::Objection(p) => if stored_severity(p.severity@) is None || v.phase
                != DecisionPhase::Evaluation || !v.proposals.contains_key(p.proposal_id@) {
                Some(MacpError::InvalidPayload)
            } else {
                None
            },
            _ => Some(MacpError::InvalidPayload),
        }
    } else if mt == "Vote"@ {
        match payload {
            MessagePayload::Vote(p) => if !is_vote_value(uppercase_of(p.vote@)) || v.phase
                == DecisionPhase::Proposal || !v.proposals.contains_key(p.proposal_id@)
                || has_voted(v, p.proposal_id@, env.sender@) {
                Some(MacpError::InvalidPayload)
            } else {
                None
            },
            _ => Some(MacpError::InvalidPayload),
        }
    } else if mt == "Commitment"@ {
        if valid_commitment(session, payload) is None || v.proposals.len() == 0 {
            Some(MacpError::InvalidPayload)
        } else if decision_policy_denies(session, v, j) {
            Some(MacpError::PolicyDenied)
        } else {
            None
        }
    } else {
        Some(MacpError::InvalidPayload)
    }
}

/// The state after an accepted message.
pub open spec fn decision_effect(
    old: DecisionView,
    new: DecisionView,
    env: Envelope,
    payload: MessagePayload,
) -> bool {
    let mt = env.message_type@;
    if mt == "Proposal"@ {
        match payload {
            MessagePayload::DecisionProposal(p) => new == DecisionView {
                proposals: old.proposals.insert(
                    p.proposal_id@,
                    Proposal {
                        proposal_id: p.proposal_id,
                        option: p.option,
                        rationale: p.rationale,
                        sender: env.sender,
                    },
                ),
                phase: DecisionPhase::Evaluation,
                ..old
            },
            _ => false,
        }
    } else if mt == "Evaluation"@ {
        match payload {
            MessagePayload::Evaluation(p) => {
                &&& new == DecisionView { evaluations: new.evaluations, ..old }
                &&& new.evaluations.len() == old.evaluations.len() + 1
                &&& new.evaluations.drop_last() == old.evaluations
                &&& new.evaluations.last().proposal_id == p.proposal_id
                &&& new.evaluations.last().recommendation@ == uppercase_of(p.recommendation@)
                &&& new.evaluations.last().confidence_bits == p.confidence_bits
                &&& new.evaluations.last().reason == p.reason
                &&& new.evaluations.last().sender == env.sender
            },
            _ => false,
        }
    } else if mt == "Objection"@ {
        match payload {
            MessagePayload::Objection(p) => {
                &&& new == DecisionView { objections: new.objections, ..old }
                &&& new.objections.len() == old.objections.len() + 1
                &&& new.objections.drop_last() == old.objections
                &&& new.objections.last().proposal_id == p.proposal_id
                &&& new.objections.last().reason == p.reason
                &&& Some(new.objections.last().severity@) == stored_severity(p.severity@)
                &&& new.objections.last().sender == env.sender
            },
            _ => false,
        }
    } else if mt == "Vote"@ {
        match payload {
            MessagePayload::Vote(p) => {
                let cast = new.votes.last();
                &&& new == DecisionView { votes: new.votes, phase: DecisionPhase::Voting, ..old }
                &&& new.votes.len() == old.votes.len() + 1
                &&& new.votes.drop_last() == old.votes
                &&& cast.proposal_id == p.proposal_id
                &&& cast.vote@ == uppercase_of(p.vote@)
                &&& cast.reason == p.reason
                &&& cast.sender == env.sender
            },
            _ => false,
        }
    } else {
        // Commitment
        new == DecisionView { phase: DecisionPhase::Committed, ..old }
    }
}

/// Who may send what (RFC-MACP-0004): Commitment per the commitment authority,
/// Proposal, Evaluation, Objection and Vote from declared participants only.
pub open spec fn decision_sender_allowed(session: Session, env: Envelope) -> bool {
    let mt = env.message_type@;
    if mt == "Commitment"@ {
        commitment_authorized(session, env.sender@)
    } else {
        (mt == "Proposal"@ || mt == "Evaluation"@ || mt == "Objection"@ || mt == "Vote"@)
            && seq_has(session.participants@, env.sender@)
    }
}

/// What `on_message` promises: a refused message leaves the session as it
/// was; an accepted one advances the mode state and, for a Commitment,
/// resolves the session with the envelope's payload.
pub open spec fn decision_outcome(
    before: Session,
    after: Session,
    r: Result<ModeResponse, MacpError>,
    env: Envelope,
    payload: MessagePayload,
    j: PolicyJudgments,
) -> bool {
    match decision_view_of(before.mode_state) {
        None => r == Err::<ModeResponse, MacpError>(MacpError::InvalidModeState)
            && after == before,
        Some(v) => match decision_rejection(before, v, env, payload, j) {
            Some(e) => r == Err::<ModeResponse, MacpError>(e) && after == before,
            None => {
                &&& same_bindings(before, after)
                &&& after.mode_state matches ModeState::Decision(ns)
                    && decision_effect(v, ns@, env, payload)
                &&& if env.message_type@ == "Commitment"@ {
                    r == Ok::<ModeResponse, MacpError>(ModeResponse::PersistAndResolve)
                        && resolved_with(before, after, env.payload@)
                } else {
                    r == Ok::<ModeResponse, MacpError>(ModeResponse::PersistState)
                        && after.state == before.state
                        && after.resolution == before.resolution
                }
            },
        },
    }
}

/// What `on_session_start` promises.
pub open spec fn decision_started(before: Session, after: Session, r: Result<ModeResponse, MacpError>) -> bool {
    if before.participants@.len() == 0 {
        r == Err::<ModeResponse, MacpError>(MacpError::InvalidPayload) && after == before
    } else {
        &&& r == Ok::<ModeResponse, MacpError>(ModeResponse::PersistState)
        &&& after == (Session { mode_state: after.mode_state, ..before })
        &&& decision_view_of(after.mode_state) == Some(empty_decision())
        &&& after.mode_state is Decision
    }
}

pub struct DecisionMode;

impl DecisionMode {
    pub fn default_state() -> (r: DecisionState)
        ensures
            r@ == empty_decision(),
    {
        let r = DecisionState {
            proposals: KeyedVec::new(),
            evaluations: Vec::new(),
            objections: Vec::new(),
            votes: Vec::new(),
            phase: DecisionPhase::Proposal,
        };
        r
    }

    /// Whether the upper-cased text is a recommendation.
    pub fn is_recommendation_exec(n: &str) -> (r: bool)
        ensures
            r == is_recommendation(n@),
    {
        str_eq(n, "APPROVE") || str_eq(n, "REVIEW") || str_eq(n, "BLOCK") || str_eq(n, "REJECT")
    }

    /// Whether the upper-cased text is a vote value.
    pub fn is_vote_value_exec(n: &str) -> (r: bool)
        ensures
            r == is_vote_value(n@),
    {
        str_eq(n, "APPROVE") || str_eq(n, "REJECT") || str_eq(n, "ABSTAIN")
    }

    /// Whether the lower-cased text is a severity.
    pub fn is_severity_exec(n: &str) -> (r: bool)
        ensures
            r == is_severity(n@),
    {
        str_eq(n, "critical") || str_eq(n, "high") || str_eq(n, "medium") || str_eq(n, "low")
    }

    /// Upper-cases and checks a recommendation.
    fn normalized_recommendation(s: &String) -> (r: Option<String>)
        ensures
            is_recommendation(uppercase_of(s@)) <==> r is Some,
            r matches Some(n) ==> n@ == uppercase_of(s@),
    {
        let n = to_uppercase(s.as_str());
        if Self::is_recommendation_exec(n.as_str()) {
            Some(n)
        } else {
            None
        }
    }

    /// Upper-cases and checks a vote value.
    fn normalized_vote(s: &String) -> (r: Option<String>)
        ensures
            is_vote_value(uppercase_of(s@)) <==> r is Some,
            r matches Some(n) ==> n@ == uppercase_of(s@),
    {
        let n = to_uppercase(s.as_str());
        if Self::is_vote_value_exec(n.as_str()) {
            Some(n)
        } else {
            None
        }
    }

    /// The severity to store, if the given one is acceptable.
    fn normalized_severity(s: &String) -> (r: Option<String>)
        ensures
            r is Some <==> stored_severity(s@) is Some,
            r matches Some(n) ==> Some(n@) == stored_severity(s@),
    {
        if s.as_str().unicode_len() == 0 {
            return Some(owned("medium"));
        }
        let n = to_lowercase(s.as_str());
        if Self::is_severity_exec(n.as_str()) {
            Some(n)
        } else {
            None
        }
    }

    fn in_range(bits: u64) -> (r: bool)
        ensures
            r == confidence_in_range(bits),
    {
        !f64_lt(bits, F64_ZERO) && !f64_lt(F64_ONE, bits)
    }

    fn has_voted_exec(st: &DecisionState, proposal_id: &str, sender: &str) -> (r: bool)
        ensures
            r == has_voted(st@, proposal_id@, sender@),
    {
        let n = st.votes.len();
        let mut i: usize = 0;
        while i < n
            invariant
                n == st.votes@.len(),
                i <= n,
                forall|k: int|
                    0 <= k < i ==> !((#[trigger] st.votes@[k]).proposal_id@ == proposal_id@
                        && st.votes@[k].sender@ == sender@),
            decreases n - i,
        {
            if str_eq(st.votes[i].proposal_id.as_str(), proposal_id) && str_eq(
                st.votes[i].sender.as_str(),
                sender,
            ) {
                assert(st@.votes[i as int] == st.votes@[i as int]);
                return true;
            }
            i = i + 1;
        }
        false
    }

    /// Decide whether a message is accepted in state `st`.
    pub fn check_message(
        session: &Session,
        st: &DecisionState,
        env: &Envelope,
        payload: &MessagePayload,
        j: &PolicyJudgments,
    ) -> (r: Result<(), MacpError>)
        ensures
            match decision_rejection(*session, st@, *env, *payload, *j) {
                Some(e) => r == Err::<(), MacpError>(e),
                None => r is Ok,
            },
    {
        if st.phase == DecisionPhase::Committed {
            return Err(MacpError::SessionNotOpen);
        }
        let mt = env.message_type.as_str();
        if str_eq(mt, "Proposal") {
            if st.phase == DecisionPhase::Voting {
                return Err(MacpError::InvalidPayload);
            }
            match payload {
                MessagePayload::DecisionProposal(p) => {
                    if str_is_blank(p.proposal_id.as_str()) || str_is_blank(p.option.as_str())
                        || st.proposals.contains_key(p.proposal_id.as_str()) {
                        return Err(MacpError::InvalidPayload);
                    }
                    Ok(())
                },
                _ => Err(MacpError::InvalidPayload),
            }
        } else if str_eq(mt, "Evaluation") {
            match payload {
                MessagePayload::Evaluation(p) => {
                    if Self::normalized_recommendation(&p.recommendation).is_none() || !Self::in_range(
                        p.confidence_bits,
                    ) || st.phase != DecisionPhase::Evaluation || !st.proposals.contains_key(
                        p.proposal_id.as_str(),
                    ) {
                        return Err(MacpError::InvalidPayload);
                    }
                    Ok(())
                },
                _ => Err(MacpError::InvalidPayload),
            }
        } else if str_eq(mt, "Objection") {
            match payload {
                MessagePayload::Objection(p) => {
                    if Self::normalized_severity(&p.severity).is_none() || st.phase
                        != DecisionPhase::Evaluation || !st.proposals.contains_key(
                        p.proposal_id.as_str(),
                    ) {
                        return Err(MacpError::InvalidPayload);
                    }
                    Ok(())
                },
                _ => Err(MacpError::InvalidPayload),
            }
        } else if str_eq(mt, "Vote") {
            match payload {
                MessagePayload::Vote(p) => {
                    if Self::normalized_vote(&p.vote).is_none() || st.phase
                        == DecisionPhase::Proposal || !st.proposals.contains_key(
                        p.proposal_id.as_str(),
                    ) || Self::has_voted_exec(st, p.proposal_id.as_str(), env.sender.as_str()) {
                        return Err(MacpError::InvalidPayload);
                    }
                    Ok(())
                },
                _ => Err(MacpError::InvalidPayload),
            }
        } else if str_eq(mt, "Commitment") {
            match payload {
                MessagePayload::Commitment(c) => {
                    if !crate::mode::util::commitment_valid(session, c) || st.proposals.len() == 0 {
                        return Err(MacpError::InvalidPayload);
                    }
                },
                _ => {
                    return Err(MacpError::InvalidPayload);
                },
            }
            match &session.policy_definition {
                Some(policy) => {
                    if evaluate_decision_commitment(policy, st, &session.participants, j).is_deny() {
                        return Err(MacpError::PolicyDenied);
                    }
                },
                None => {},
            }
            Ok(())
        } else {
            Err(MacpError::InvalidPayload)
        }
    }

    /// Apply an accepted message to the state.
    fn advance(
        Ghost(session): Ghost<Session>,
        Ghost(j): Ghost<PolicyJudgments>,
        st: DecisionState,
        env: &Envelope,
        payload: MessagePayload,
    ) -> (r: DecisionState)
        requires
            decision_rejection(session, st@, *env, payload, j) is None,
        ensures
            decision_effect(st@, r@, *env, payload),
    {
        let ghost old_v = st@;
        let mut st = st;
        let mt = env.message_type.as_str();
        if str_eq(mt, "Proposal") {
            match payload {
                MessagePayload::DecisionProposal(p) => {
                    let key = p.proposal_id.clone();
                    st.proposals.insert(
                        key,
                        Proposal {
                            proposal_id: p.proposal_id,
                            option: p.option,
                            rationale: p.rationale,
                            sender: env.sender.clone(),
                        },
                    );
                    st.phase = DecisionPhase::Evaluation;
                },
                _ => {},
            }
        } else if str_eq(mt, "Evaluation") {
            match payload {
                MessagePayload::Evaluation(p) => {
                    let recommendation = to_uppercase(p.recommendation.as_str());
                    st.evaluations.push(
                        Evaluation {
                            proposal_id: p.proposal_id,
                            recommendation,
                            confidence_bits: p.confidence_bits,
                            reason: p.reason,
                            sender: env.sender.clone(),
                        },
                    );
                    assert(st.evaluations@.drop_last() =~= old_v.evaluations);
                },
                _ => {},
            }
        } else if str_eq(mt, "Objection") {
            match payload {
                MessagePayload::Objection(p) => {
                    let severity = match Self::normalized_severity(&p.severity) {
                        Some(sv) => sv,
                        None => owned("medium"),
                    };
                    st.objections.push(
                        Objection {
                            proposal_id: p.proposal_id,
                            reason: p.reason,
                            severity,
                            sender: env.sender.clone(),
                        },
                    );
                    assert(st.objections@.drop_last() =~= old_v.objections);
                },
                _ => {},
            }
        } else if str_eq(mt, "Vote") {
            match payload {
                MessagePayload::Vote(p) => {
                    let vote = to_uppercase(p.vote.as_str());
                    st.votes.push(
                        Vote {
                            proposal_id: p.proposal_id,
                            vote,
                            reason: p.reason,
                            sender: env.sender.clone(),
                        },
                    );
                    st.phase = DecisionPhase::Voting;
                    assert(st.votes@.drop_last() =~= old_v.votes);
                },
                _ => {},
            }
        } else {
            st.phase = DecisionPhase::Committed;
        }
        st
    }
}

impl Mode for DecisionMode {
    /// Authorize the sender for decision mode messages.
    ///
    /// Authority matrix (RFC-MACP-0004):
    /// - Proposal, Evaluation, Objection, Vote → declared participant only
    /// - Commitment → initiator or policy-delegated role
    fn authorize_sender(&self, session: &Session, env: &Envelope) -> (r: Result<(), MacpError>)
        ensures
            r is Ok <==> decision_sender_allowed(*session, *env),
            r matches Err(e) ==> e == MacpError::Forbidden,
    {
        let mt = env.message_type.as_str();
        if str_eq(mt, "Commitment") {
            check_commitment_authority(session, env.sender.as_str())
        } else if (str_eq(mt, "Proposal") || str_eq(mt, "Evaluation") || str_eq(mt, "Objection")
            || str_eq(mt, "Vote")) && is_declared_participant(
            &session.participants,
            env.sender.as_str(),
        ) {
            Ok(())
        } else {
            Err(MacpError::Forbidden)
        }
    }

    /// A decision session needs declared participants; it starts with no proposals.
    fn on_session_start(&self, session: &mut Session, env: &Envelope) -> (r: Result<
        ModeResponse,
        MacpError,
    >)
        ensures
            decision_started(*old(session), *final(session), r),
    {
        if session.participants.len() == 0 {
            return Err(MacpError::InvalidPayload);
        }
        session.mode_state = ModeState::Decision(Self::default_state());
        Ok(ModeResponse::PersistState)
    }

    fn on_message(
        &self,
        session: &mut Session,
        env: &Envelope,
        payload: MessagePayload,
        judgments: &PolicyJudgments,
    ) -> (r: Result<ModeResponse, MacpError>)
        ensures
            decision_outcome(*old(session), *final(session), r, *env, payload, *judgments),
    {
        match &session.mode_state {
            ModeState::Empty => {
                let st = Self::default_state();
                Self::check_message(session, &st, env, &payload, judgments)?;
            },
            ModeState::Decision(st) => {
                Self::check_message(session, st, env, &payload, judgments)?;
            },
            _ => {
                return Err(MacpError::InvalidModeState);
            },
        }
        let ghost before = *session;
        let mut taken = ModeState::Empty;
        std::mem::swap(&mut taken, &mut session.mode_state);
        let st = match taken {
            ModeState::Decision(st) => st,
            _ => Self::default_state(),
        };
        let is_commitment = str_eq(env.message_type.as_str(), "Commitment");
        let next = Self::advance(Ghost(before), Ghost(*judgments), st, env, payload);
        session.mode_state = ModeState::Decision(next);
        if is_commitment {
            session.resolution = Some(env.payload.clone());
            session.state = SessionState::Resolved;
            Ok(ModeResponse::PersistAndResolve)
        } else {
            Ok(ModeResponse::PersistState)
        }
    }
}

} // verus!
