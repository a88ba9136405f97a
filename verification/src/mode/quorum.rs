//! Quorum Mode (RFC-MACP-0011): one approval request, one ballot per
//! participant, closed by a Commitment once the outcome is settled.
use vstd::prelude::*;
use crate::error::MacpError;
use crate::ieee754::{as_u32_saturating, f64_as_u32, f64_lt, lt, F64_ZERO};
use crate::keyed::KeyedVec;
use crate::mode::util::{
    check_commitment_authority, commitment_authorized, commitment_valid, is_declared_participant,
    valid_commitment,
};
use crate::mode::{resolved_with, same_bindings, Mode, ModeResponse, PolicyJudgments};
use crate::pb::{BallotPayload, Envelope, MessagePayload};
use crate::policy::evaluator::{evaluate_quorum_commitment, quorum_verdict};
use crate::session::{ModeState, Session, SessionState};
use crate::text::{seq_has, str_eq};

verus! {

#[derive(Debug, Clone, Copy, PartialEq, Eq, Structural)]
pub enum BallotChoice {
    Approve,
    Reject,
    Abstain,
}

pub struct ApprovalRequestRecord {
    pub request_id: String,
    pub action: String,
    pub summary: String,
    pub details: Vec<u8>,
    pub required_approvals: u32,
    pub requested_by: String,
}

pub struct BallotRecord {
    pub request_id: String,
    pub choice: BallotChoice,
    pub sender: String,
    pub reason: String,
}

/// Quorum state: the approval request and one ballot per sender, in arrival order.
pub struct QuorumState {
    pub request: Option<ApprovalRequestRecord>,
    pub ballots: KeyedVec<BallotRecord>,
}

pub ghost struct QuorumView {
    pub request: Option<ApprovalRequestRecord>,
    /// (sender, ballot) in arrival order.
    pub ballots: Seq<(String, BallotRecord)>,
}

impl View for QuorumState {
    type V = QuorumView;

    open spec fn view(&self) -> QuorumView {
        QuorumView { request: self.request, ballots: self.ballots.entries_seq() }
    }
}

pub open spec fn empty_quorum() -> QuorumView {
    QuorumView { request: None, ballots: Seq::empty() }
}

/// The quorum state that a stored mode state stands for.
pub open spec fn quorum_view_of(ms: ModeState) -> Option<QuorumView> {
    match ms {
        ModeState::Empty => Some(empty_quorum()),
        ModeState::Quorum(s) => Some(s@),
        _ => None,
    }
}

/// The sender has cast a ballot.
pub open spec fn has_ballot(v: QuorumView, sender: Seq<char>) -> bool {
    exists|i: int| 0 <= i < v.ballots.len() && (#[trigger] v.ballots[i]).0@ == sender
}

/// The number of ballots with the given choice.
pub open spec fn count_choice(s: Seq<(String, BallotRecord)>, c: BallotChoice) -> nat
    decreases s.len(),
{
    if s.len() == 0 {
        0
    } else {
        count_choice(s.drop_last(), c) + if s.last().1.choice == c {
            1nat
        } else {
            0nat
        }
    }
}

pub proof fn lemma_choices_sum(s: Seq<(String, BallotRecord)>)
    ensures
        count_choice(s, BallotChoice::Approve) + count_choice(s, BallotChoice::Reject)
            + count_choice(s, BallotChoice::Abstain) == s.len(),
    decreases s.len(),
{
    if s.len() > 0 {
        lemma_choices_sum(s.drop_last());
    }
}

/// The approvals the request needs. A policy threshold above zero replaces the
/// request's own number (RFC-MACP-0011): a `percentage` threshold is taken of
/// the participants (as `j.percentage_threshold`), any other type is the value
/// itself, truncated to an integer.
pub open spec fn effective_threshold(
    session: Session,
    request: ApprovalRequestRecord,
    j: PolicyJudgments,
) -> u32 {
    match session.policy_definition {
        Some(p) => if lt(F64_ZERO, p.rules.quorum.threshold.value_bits) {
            if p.rules.quorum.threshold.threshold_type@ == "percentage"@ {
                j.percentage_threshold
            } else {
                as_u32_saturating(p.rules.quorum.threshold.value_bits)
            }
        } else {
            request.required_approvals
        },
        None => request.required_approvals,
    }
}

/// The outcome is settled: the threshold is reached, or the ballots still
/// outstanding cannot reach it.
pub open spec fn quorum_settled(session: Session, v: QuorumView, j: PolicyJudgments) -> bool {
    match v.request {
        Some(request) => {
            let required = effective_threshold(session, request, j);
            let approvals = count_choice(v.ballots, BallotChoice::Approve) as u32;
            let eligible = session.participants@.len() as u32;
            let counted = v.ballots.len() as u32;
            let remaining: int = if eligible >= counted {
                eligible - counted
            } else {
                0
            };
            approvals >= required || approvals + remaining < required
        },
        None => false,
    }
}

/// The bound policy denies a commitment.
pub open spec fn quorum_policy_denies(session: Session, v: QuorumView, j: PolicyJudgments) -> bool {
    match session.policy_definition {
        Some(p) => quorum_verdict(
            p,
            count_choice(v.ballots, BallotChoice::Approve),
            count_choice(v.ballots, BallotChoice::Reject),
            count_choice(v.ballots, BallotChoice::Abstain),
            session.participants@.len(),
            j,
        ).0,
        None => false,
    }
}

/// Why a ballot is refused, or `None`.
pub open spec fn ballot_rejection(v: QuorumView, request_id: Seq<char>, sender: Seq<char>) -> Option<
    MacpError,
> {
    match v.request {
        Some(request) => if request_id != request.request_id@ || has_ballot(v, sender) {
            Some(MacpError::InvalidPayload)
        } else {
            None
        },
        None => Some(MacpError::InvalidPayload),
    }
}

/// Why a message is refused in the given quorum state, or `None`.
pub open spec fn quorum_rejection(
    session: Session,
    v: QuorumView,
    env: Envelope,
    payload: MessagePayload,
    j: PolicyJudgments,
) -> Option<MacpError> {
    let mt = env.message_type@;
    let sender = env.sender@;
    if mt == "ApprovalRequest"@ {
        if sender != session.initiator_sender@ {
            Some(MacpError::Forbidden)
        } else {
            match payload {
                MessagePayload::ApprovalRequest(p) => if v.request is Some || p.request_id@.len()
                    == 0 || p.required_approvals == 0 || p.required_approvals
                    > session.participants@.len() as u32 {
                    Some(MacpError::InvalidPayload)
                } else {
                    None
                },
                _ => Some(MacpError::InvalidPayload),
            }
        }
    } else if mt == "Approve"@ {
        match payload {
            MessagePayload::Approve(p) => ballot_rejection(v, p.request_id@, sender),
            _ => Some(MacpError::InvalidPayload),
        }
    } else if mt == "Reject"@ {
        match payload {
            MessagePayload::QuorumReject(p) => ballot_rejection(v, p.request_id@, sender),
            _ => Some(MacpError::InvalidPayload),
        }
    } else if mt == "Abstain"@ {
        match payload {
            MessagePayload::Abstain(p) => ballot_rejection(v, p.request_id@, sender),
            _ => Some(MacpError::InvalidPayload),
        }
    } else if mt == "Commitment"@ {
        if valid_commitment(session, payload) is None || !quorum_settled(session, v, j) {
            Some(MacpError::InvalidPayload)
        } else if quorum_policy_denies(session, v, j) {
            Some(MacpError::PolicyDenied)
        } else {
            None
        }
    } else {
        Some(MacpError::InvalidPayload)
    }
}

/// The state with the sender's ballot added.
pub open spec fn with_ballot(v: QuorumView, sender: String, p: BallotPayload, choice: BallotChoice) -> QuorumView {
    QuorumView {
        ballots: v.ballots.push(
            (sender, BallotRecord { request_id: p.request_id, choice, sender, reason: p.reason }),
        ),
        ..v
    }
}

/// The state after an accepted message.
pub open spec fn quorum_next(v: QuorumView, env: Envelope, payload: MessagePayload) -> QuorumView {
    match payload {
        MessagePayload::ApprovalRequest(p) => QuorumView {
            request: Some(
                ApprovalRequestRecord {
                    request_id: p.request_id,
                    action: p.action,
                    summary: p.summary,
                    details: p.details,
                    required_approvals: p.required_approvals,
                    requested_by: env.sender,
                },
            ),
            ..v
        },
        MessagePayload::Approve(p) => with_ballot(v, env.sender, p, BallotChoice::Approve),
        MessagePayload::QuorumReject(p) => with_ballot(v, env.sender, p, BallotChoice::Reject),
        MessagePayload::Abstain(p) => with_ballot(v, env.sender, p, BallotChoice::Abstain),
        _ => v,
    }
}

/// ApprovalRequest from the initiator; Commitment per the commitment
/// authority; everything else from declared participants.
pub open spec fn quorum_sender_allowed(session: Session, env: Envelope) -> bool {
    let mt = env.message_type@;
    if mt == "ApprovalRequest"@ {
        env.sender@ == session.initiator_sender@
    } else if mt == "Commitment"@ {
        commitment_authorized(session, env.sender@)
    } else {
        seq_has(session.participants@, env.sender@)
    }
}

/// What `on_message` promises: a refused message leaves the session as it
/// was; an accepted one advances the mode state and, for a Commitment,
/// resolves the session with the envelope's payload.
pub open spec fn quorum_outcome(
    before: Session,
    after: Session,
    r: Result<ModeResponse, MacpError>,
    env: Envelope,
    payload: MessagePayload,
    j: PolicyJudgments,
) -> bool {
    match quorum_view_of(before.mode_state) {
        None => r == Err::<ModeResponse, MacpError>(MacpError::InvalidModeState)
            && after == before,
        Some(v) => match quorum_rejection(before, v, env, payload, j) {
            Some(e) => r == Err::<ModeResponse, MacpError>(e) && after == before,
            None => {
                &&& same_bindings(before, after)
                &&& after.mode_state matches ModeState::Quorum(ns) && ns@
                    == quorum_next(v, env, payload)
                &&& if env.message_type@ == "Commitment"@ {
                    r == Ok::<ModeResponse, MacpError>(ModeResponse::PersistAndResolve)
                        && resolved_with(before, after, env.payload@)
                } else {
                    r == Ok::<ModeResponse, MacpError>(ModeResponse::PersistState)
                        && after.state == before.state
                        && after.resolution == before.resolution
                }
            },
        },
    }
}

/// What `on_session_start` promises.
pub open spec fn quorum_started(before: Session, after: Session, r: Result<ModeResponse, MacpError>) -> bool {
    if before.participants@.len() == 0 {
        r == Err::<ModeResponse, MacpError>(MacpError::InvalidPayload) && after == before
    } else {
        &&& r == Ok::<ModeResponse, MacpError>(ModeResponse::PersistState)
        &&& after == (Session { mode_state: after.mode_state, ..before })
        &&& quorum_view_of(after.mode_state) == Some(empty_quorum())
        &&& after.mode_state is Quorum
    }
}

pub struct QuorumMode;

impl QuorumMode {
    pub fn default_state() -> (r: QuorumState)
        ensures
            r@ == empty_quorum(),
    {
        let r = QuorumState { request: None, ballots: KeyedVec::new() };
        assert(r@.ballots =~= Seq::<(String, BallotRecord)>::empty());
        r
    }

    /// Count the ballots with the given choice.
    pub fn count_ballots(st: &QuorumState, choice: BallotChoice) -> (r: usize)
        ensures
            r == count_choice(st@.ballots, choice),
    {
        let entries = st.ballots.entries();
        let n = entries.len();
        let mut count: usize = 0;
        let mut i: usize = 0;
        while i < n
            invariant
                n == entries@.len(),
                i <= n,
                count <= i,
                count == count_choice(entries@.take(i as int), choice),
            decreases n - i,
        {
            assert(entries@.take(i + 1).drop_last() =~= entries@.take(i as int));
            if entries[i].1.choice == choice {
                count = count + 1;
            }
            i = i + 1;
        }
        assert(entries@.take(n as int) =~= entries@);
        count
    }

    /// Resolve the effective approval threshold, considering policy overrides.
    ///
    /// RFC-MACP-0011: "When policy specifies a threshold override, it replaces
    /// (not supplements) the required_approvals value from ApprovalRequest."
    pub fn effective_threshold(
        session: &Session,
        request: &ApprovalRequestRecord,
        judgments: &PolicyJudgments,
    ) -> (r: u32)
        ensures
            r == effective_threshold(*session, *request, *judgments),
    {
        match &session.policy_definition {
            Some(policy) => {
                let t = &policy.rules.quorum.threshold;
                if f64_lt(F64_ZERO, t.value_bits) {
                    if str_eq(t.threshold_type.as_str(), "percentage") {
                        judgments.percentage_threshold
                    } else {
                        f64_as_u32(t.value_bits)
                    }
                } else {
                    request.required_approvals
                }
            },
            None => request.required_approvals,
        }
    }

    fn commitment_ready(session: &Session, st: &QuorumState, judgments: &PolicyJudgments) -> (r: bool)
        ensures
            r == quorum_settled(*session, st@, *judgments),
    {
        let request = match &st.request {
            Some(request) => request,
            None => {
                return false;
            },
        };
        let required = Self::effective_threshold(session, request, judgments);
        let approvals = Self::count_ballots(st, BallotChoice::Approve) as u32;
        let total_eligible = session.participants.len() as u32;
        let counted = st.ballots.len() as u32;
        let remaining = total_eligible.saturating_sub(counted);
        // Commitment is ready if threshold reached OR threshold is mathematically unreachable
        approvals >= required || (approvals as u64) + (remaining as u64) < required as u64
    }

    fn has_ballot_exec(st: &QuorumState, sender: &str) -> (r: bool)
        ensures
            r == has_ballot(st@, sender@),
    {
        let entries = st.ballots.entries();
        let n = entries.len();
        let mut i: usize = 0;
        while i < n
            invariant
                n == entries@.len(),
                entries@ == st@.ballots,
                i <= n,
                forall|k: int| 0 <= k < i ==> (#[trigger] entries@[k]).0@ != sender@,
            decreases n - i,
        {
            if str_eq(entries[i].0.as_str(), sender) {
                assert(st@.ballots[i as int] == entries@[i as int]);
                return true;
            }
            i = i + 1;
        }
        false
    }

    fn check_ballot(st: &QuorumState, request_id: &String, sender: &str) -> (r: Result<(), MacpError>)
        ensures
            match ballot_rejection(st@, request_id@, sender@) {
                Some(e) => r == Err::<(), MacpError>(e),
                None => r is Ok,
            },
    {
        match &st.request {
            Some(request) => {
                if !str_eq(request_id.as_str(), request.request_id.as_str()) || Self::has_ballot_exec(
                    st,
                    sender,
                ) {
                    return Err(MacpError::InvalidPayload);
                }
                Ok(())
            },
            None => Err(MacpError::InvalidPayload),
        }
    }

    /// Decide whether a message is accepted in state `st`.
    pub fn check_message(
        session: &Session,
        st: &QuorumState,
        env: &Envelope,
        payload: &MessagePayload,
        judgments: &PolicyJudgments,
    ) -> (r: Result<(), MacpError>)
        ensures
            match quorum_rejection(*session, st@, *env, *payload, *judgments) {
                Some(e) => r == Err::<(), MacpError>(e),
                None => r is Ok,
            },
    {
        let mt = env.message_type.as_str();
        let sender = env.sender.as_str();
        if str_eq(mt, "ApprovalRequest") {
            if !str_eq(sender, session.initiator_sender.as_str()) {
                return Err(MacpError::Forbidden);
            }
            match payload {
                MessagePayload::ApprovalRequest(p) => {
                    if st.request.is_some() || p.request_id.as_str().unicode_len() == 0
                        || p.required_approvals == 0 || p.required_approvals
                        > session.participants.len() as u32 {
                        return Err(MacpError::InvalidPayload);
                    }
                    Ok(())
                },
                _ => Err(MacpError::InvalidPayload),
            }
        } else if str_eq(mt, "Approve") {
            match payload {
                MessagePayload::Approve(p) => Self::check_ballot(st, &p.request_id, sender),
                _ => Err(MacpError::InvalidPayload),
            }
        } else if str_eq(mt, "Reject") {
            match payload {
                MessagePayload::QuorumReject(p) => Self::check_ballot(st, &p.request_id, sender),
                _ => Err(MacpError::InvalidPayload),
            }
        } else if str_eq(mt, "Abstain") {
            match payload {
                MessagePayload::Abstain(p) => Self::check_ballot(st, &p.request_id, sender),
                _ => Err(MacpError::InvalidPayload),
            }
        } else if str_eq(mt, "Commitment") {
            match payload {
                MessagePayload::Commitment(c) => {
                    if !commitment_valid(session, c) {
                        return Err(MacpError::InvalidPayload);
                    }
                },
                _ => {
                    return Err(MacpError::InvalidPayload);
                },
            }
            if !Self::commitment_ready(session, st, judgments) {
                return Err(MacpError::InvalidPayload);
            }
            // Evaluate governance policy if one is bound to the session.
            match &session.policy_definition {
                Some(policy) => {
                    let approve_count = Self::count_ballots(st, BallotChoice::Approve);
                    let reject_count = Self::count_ballots(st, BallotChoice::Reject);
                    let abstain_count = Self::count_ballots(st, BallotChoice::Abstain);
                    let ballots = st.ballots.len();
                    proof {
                        lemma_choices_sum(st@.ballots);
                    }
                    assert(approve_count + reject_count + abstain_count == ballots);
                    if evaluate_quorum_commitment(
                        policy,
                        approve_count,
                        reject_count,
                        abstain_count,
                        session.participants.len(),
                        judgments,
                    ).is_deny() {
                        return Err(MacpError::PolicyDenied);
                    }
                },
                None => {},
            }
            Ok(())
        } else {
            Err(MacpError::InvalidPayload)
        }
    }

    fn add_ballot(st: &mut QuorumState, sender: &String, p: BallotPayload, choice: BallotChoice)
        requires
            !old(st).ballots@.contains_key(sender@),
        ensures
            final(st)@ == with_ballot(old(st)@, *sender, p, choice),
    {
        st.ballots.insert(
            sender.clone(),
            BallotRecord { request_id: p.request_id, choice, sender: sender.clone(), reason: p.reason },
        );
    }

    /// Apply an accepted message to the state.
    fn advance(
        Ghost(session): Ghost<Session>,
        Ghost(j): Ghost<PolicyJudgments>,
        st: QuorumState,
        env: &Envelope,
        payload: MessagePayload,
    ) -> (r: QuorumState)
        requires
            quorum_rejection(session, st@, *env, payload, j) is None,
        ensures
            r@ == quorum_next(st@, *env, payload),
    {
        let mut st = st;
        match payload {
            MessagePayload::ApprovalRequest(p) => {
                st.request = Some(
                    ApprovalRequestRecord {
                        request_id: p.request_id,
                        action: p.action,
                        summary: p.summary,
                        details: p.details,
                        required_approvals: p.required_approvals,
                        requested_by: env.sender.clone(),
                    },
                );
            },
            MessagePayload::Approve(p) => {
                Self::add_ballot(&mut st, &env.sender, p, BallotChoice::Approve);
            },
            MessagePayload::QuorumReject(p) => {
                Self::add_ballot(&mut st, &env.sender, p, BallotChoice::Reject);
            },
            MessagePayload::Abstain(p) => {
                Self::add_ballot(&mut st, &env.sender, p, BallotChoice::Abstain);
            },
            _ => {},
        }
        st
    }
}

impl Mode for QuorumMode {
    fn authorize_sender(&self, session: &Session, env: &Envelope) -> (r: Result<(), MacpError>)
        ensures
            r is Ok <==> quorum_sender_allowed(*session, *env),
            r matches Err(e) ==> e == MacpError::Forbidden,
    {
        let mt = env.message_type.as_str();
        let sender = env.sender.as_str();
        if str_eq(mt, "ApprovalRequest") {
            if str_eq(sender, session.initiator_sender.as_str()) {
                Ok(())
            } else {
                Err(MacpError::Forbidden)
            }
        } else if str_eq(mt, "Commitment") {
            check_commitment_authority(session, sender)
        } else if is_declared_participant(&session.participants, sender) {
            Ok(())
        } else {
            Err(MacpError::Forbidden)
        }
    }

    /// A quorum session needs declared participants; it starts with no request.
    fn on_session_start(&self, session: &mut Session, env: &Envelope) -> (r: Result<
        ModeResponse,
        MacpError,
    >)
        ensures
            quorum_started(*old(session), *final(session), r),
    {
        if session.participants.len() == 0 {
            return Err(MacpError::InvalidPayload);
        }
        session.mode_state = ModeState::Quorum(Self::default_state());
        Ok(ModeResponse::PersistState)
    }

    fn on_message(
        &self,
        session: &mut Session,
        env: &Envelope,
        payload: MessagePayload,
        judgments: &PolicyJudgments,
    ) -> (r: Result<ModeResponse, MacpError>)
        ensures
            quorum_outcome(*old(session), *final(session), r, *env, payload, *judgments),
    {
        match &session.mode_state {
            ModeState::Empty => {
                let st = Self::default_state();
                Self::check_message(session, &st, env, &payload, judgments)?;
            },
            ModeState::Quorum(st) => {
                Self::check_message(session, st, env, &payload, judgments)?;
            },
            _ => {
                return Err(MacpError::InvalidModeState);
            },
        }
        let ghost before = *session;
        let mut taken = ModeState::Empty;
        std::mem::swap(&mut taken, &mut session.mode_state);
        let st = match taken {
            ModeState::Quorum(st) => st,
            _ => Self::default_state(),
        };
        let is_commitment = str_eq(env.message_type.as_str(), "Commitment");
        let next = Self::advance(Ghost(before), Ghost(*judgments), st, env, payload);
        session.mode_state = ModeState::Quorum(next);
        if is_commitment {
            session.resolution = Some(env.payload.clone());
            session.state = SessionState::Resolved;
            Ok(ModeResponse::PersistAndResolve)
        } else {
            Ok(ModeResponse::PersistState)
        }
    }
}

} // verus!
