//! Proposal Mode (RFC-MACP-0008): negotiation through proposals,
//! counter-proposals, accepts, rejects and withdrawals, closed by a Commitment.
use vstd::prelude::*;
use crate::error::MacpError;
use crate::keyed::{lemma_key_index, seq_has_key, seq_key_index, seq_to_map, KeyedVec};
use crate::mode::util::{
    all_accept, check_commitment_authority, commitment_authorized, commitment_valid,
    is_declared_participant, participants_all_accept, valid_commitment,
};
use crate::mode::{resolved_with, same_bindings, Mode, ModeResponse, PolicyJudgments};
use crate::pb::{Envelope, MessagePayload};
use crate::policy::evaluator::{evaluate_proposal_commitment, proposal_verdict};
use crate::session::{ModeState, Session, SessionState};
use crate::text::{is_blank, seq_has, str_eq, str_is_blank};

verus! {

#[derive(Debug, Clone, Copy, PartialEq, Eq, Structural)]
pub enum ProposalDisposition {
    Live,
    Withdrawn,
}

#[derive(Debug, Clone, Copy, PartialEq, Eq, Structural)]
pub enum ProposalPhase {
    Negotiating,
    Converged,
    TerminalRejected,
    Committed,
}

pub struct ProposalRecord {
    pub proposal_id: String,
    pub title: String,
    pub summary: String,
    pub details: Vec<u8>,
    pub tags: Vec<String>,
    pub proposer: String,
    pub supersedes_proposal_id: Option<String>,
    pub disposition: ProposalDisposition,
}

pub struct TerminalRejectRecord {
    pub proposal_id: String,
    pub sender: String,
    pub reason: String,
}

/// Proposal state: proposals by id (in arrival order), each participant's
/// current acceptance, and the terminal rejections on record.
pub struct ProposalState {
    pub proposals: KeyedVec<ProposalRecord>,
    pub accepts: KeyedVec<String>,
    pub terminal_rejections: Vec<TerminalRejectRecord>,
    pub phase: ProposalPhase,
}

/// The abstract proposal state; `proposals` lists (id, record) in arrival order.
pub ghost struct ProposalView {
    pub proposals: Seq<(String, ProposalRecord)>,
    pub accepts: Map<Seq<char>, String>,
    pub terminal_rejections: Seq<TerminalRejectRecord>,
    pub phase: ProposalPhase,
}

impl View for ProposalState {
    type V = ProposalView;

    open spec fn view(&self) -> ProposalView {
        ProposalView {
            proposals: self.proposals.entries_seq(),
            accepts: self.accepts@,
            terminal_rejections: self.terminal_rejections@,
            phase: self.phase,
        }
    }
}

/// The proposals by id.
pub open spec fn proposal_map(v: ProposalView) -> Map<Seq<char>, ProposalRecord> {
    seq_to_map(v.proposals)
}

pub open spec fn empty_proposal() -> ProposalView {
    ProposalView {
        proposals: Seq::empty(),
        accepts: Map::empty(),
        terminal_rejections: Seq::empty(),
        phase: ProposalPhase::Negotiating,
    }
}

/// The proposal state that a stored mode state stands for.
pub open spec fn proposal_view_of(ms: ModeState) -> Option<ProposalView> {
    match ms {
        ModeState::Empty => Some(empty_proposal()),
        ModeState::Proposal(s) => Some(s@),
        _ => None,
    }
}

/// The proposal exists and has not been withdrawn.
pub open spec fn is_live(v: ProposalView, proposal_id: Seq<char>) -> bool {
    proposal_map(v).contains_key(proposal_id) && proposal_map(v)[proposal_id].disposition
        == ProposalDisposition::Live
}

/// The acceptance criterion of the bound policy (`all_parties` without one).
pub open spec fn acceptance_criterion(session: Session) -> Seq<char> {
    match session.policy_definition {
        Some(p) => p.rules.proposal.acceptance.criterion@,
        None => "all_parties"@,
    }
}

/// `who`'s current acceptance names `proposal_id`.
pub open spec fn accepted_by(accepts: Map<Seq<char>, String>, who: Seq<char>, proposal_id: Seq<char>) -> bool {
    accepts.contains_key(who) && accepts[who]@ == proposal_id
}

/// The acceptance criterion holds for a proposal: `counterparty` needs every
/// participant but the proposer, `initiator` the session initiator, and
/// anything else (`all_parties`) every declared participant.
pub open spec fn criterion_met(
    criterion: Seq<char>,
    participants: Seq<String>,
    initiator: Seq<char>,
    accepts: Map<Seq<char>, String>,
    proposal_id: Seq<char>,
    proposer: Seq<char>,
) -> bool {
    if criterion == "counterparty"@ {
        forall|i: int|
            0 <= i < participants.len() && (#[trigger] participants[i])@ != proposer
                ==> accepted_by(accepts, participants[i]@, proposal_id)
    } else if criterion == "initiator"@ {
        accepted_by(accepts, initiator, proposal_id)
    } else {
        participants.len() > 0 && all_accept(participants, accepts, proposal_id)
    }
}

/// The phase that the state's contents call for, under the given acceptance
/// criterion: terminally rejected once any terminal rejection stands,
/// converged once some live proposal meets the criterion.
pub open spec fn phase_from(
    criterion: Seq<char>,
    participants: Seq<String>,
    initiator: Seq<char>,
    v: ProposalView,
) -> ProposalPhase {
    if v.terminal_rejections.len() > 0 {
        ProposalPhase::TerminalRejected
    } else if exists|i: int|
        0 <= i < v.proposals.len() && (#[trigger] v.proposals[i]).1.disposition
            == ProposalDisposition::Live && criterion_met(
            criterion,
            participants,
            initiator,
            v.accepts,
            v.proposals[i].1.proposal_id@,
            v.proposals[i].1.proposer@,
        ) {
        ProposalPhase::Converged
    } else {
        ProposalPhase::Negotiating
    }
}

/// The phase that the state's contents call for in the session.
pub open spec fn phase_of(session: Session, v: ProposalView) -> ProposalPhase {
    phase_from(
        acceptance_criterion(session),
        session.participants@,
        session.initiator_sender@,
        v,
    )
}

/// The state with its phase recomputed.
pub open spec fn refreshed(session: Session, v: ProposalView) -> ProposalView {
    ProposalView { phase: phase_of(session, v), ..v }
}

/// The number of counter-proposals (records that supersede another).
pub open spec fn counter_count(s: Seq<(String, ProposalRecord)>) -> nat
    decreases s.len(),
{
    if s.len() == 0 {
        0
    } else {
        counter_count(s.drop_last()) + if s.last().1.supersedes_proposal_id is Some {
            1nat
        } else {
            0nat
        }
    }
}

/// The bound policy makes every rejection terminal.
pub open spec fn terminal_on_any_reject(session: Session) -> bool {
    match session.policy_definition {
        Some(p) => p.rules.proposal.rejection.terminal_on_any_reject,
        None => false,
    }
}

/// The bound policy's counter-proposal limit is already reached.
pub open spec fn max_rounds_reached(session: Session, v: ProposalView) -> bool {
    match session.policy_definition {
        Some(p) => p.rules.proposal.counter_proposal.max_rounds > 0 && counter_count(v.proposals)
            >= p.rules.proposal.counter_proposal.max_rounds,
        None => false,
    }
}

/// The bound policy denies a commitment.
pub open spec fn proposal_policy_denies(session: Session, v: ProposalView) -> bool {
    match session.policy_definition {
        Some(p) => proposal_verdict(p, counter_count(v.proposals)).0,
        None => false,
    }
}

/// Why a message is refused in the given proposal state, or `None`.
pub open spec fn proposal_rejection(
    session: Session,
    v: ProposalView,
    env: Envelope,
    payload: MessagePayload,
) -> Option<MacpError> {
    let mt = env.message_type@;
    let proposals = proposal_map(v);
    if v.phase == ProposalPhase::Committed {
        Some(MacpError::SessionNotOpen)
    } else if mt == "Proposal"@ {
        match payload {
            MessagePayload::Proposal(p) => if is_blank(p.proposal_id@) || proposals.contains_key(
                p.proposal_id@,
            ) {
                Some(MacpError::InvalidPayload)
            } else {
                None
            },
            _ => Some(MacpError::InvalidPayload),
        }
    } else if mt == "CounterProposal"@ {
        match payload {
            MessagePayload::CounterProposal(p) => if is_blank(p.proposal_id@) || is_blank(
                p.supersedes_proposal_id@,
            ) || proposals.contains_key(p.proposal_id@) || !proposals.contains_key(
                p.supersedes_proposal_id@,
            ) || max_rounds_reached(session, v) {
                Some(MacpError::InvalidPayload)
            } else {
                None
            },
            _ => Some(MacpError::InvalidPayload),
        }
    } else if mt == "Accept"@ {
        match payload {
            MessagePayload::Accept(p) => if !is_live(v, p.proposal_id@) {
                Some(MacpError::InvalidPayload)
            } else {
                None
            },
            _ => Some(MacpError::InvalidPayload),
        }
    } else if mt == "Reject"@ {
        match payload {
            MessagePayload::ProposalReject(p) => if !proposals.contains_key(p.proposal_id@) {
                Some(MacpError::InvalidPayload)
            } else {
                None
            },
            _ => Some(MacpError::InvalidPayload),
        }
    } else if mt == "Withdraw"@ {
        match payload {
            MessagePayload::Withdraw(p) => if !proposals.contains_key(p.proposal_id@) {
                Some(MacpError::InvalidPayload)
            } else if proposals[p.proposal_id@].proposer@ != env.sender@ {
                Some(MacpError::Forbidden)
            } else if proposals[p.proposal_id@].disposition == ProposalDisposition::Withdrawn {
                Some(MacpError::InvalidPayload)
            } else {
                None
            },
            _ => Some(MacpError::InvalidPayload),
        }
    } else if mt == "Commitment"@ {
        let phase = phase_of(session, v);
        if valid_commitment(session, payload) is None || !(phase == ProposalPhase::Converged
            || phase == ProposalPhase::TerminalRejected) {
            Some(MacpError::InvalidPayload)
        } else if proposal_policy_denies(session, v) {
            Some(MacpError::PolicyDenied)
        } else {
            None
        }
    } else {
        Some(MacpError::InvalidPayload)
    }
}

/// The acceptances left after withdrawing `proposal_id`.
pub open spec fn accepts_without(accepts: Map<Seq<char>, String>, proposal_id: Seq<char>) -> Map<
    Seq<char>,
    String,
> {
    Map::new(
        |k: Seq<char>| accepts.contains_key(k) && accepts[k]@ != proposal_id,
        |k: Seq<char>| accepts[k],
    )
}

/// The terminal rejections left after withdrawing `proposal_id`, in order.
pub open spec fn rejections_without(s: Seq<TerminalRejectRecord>, proposal_id: Seq<char>) -> Seq<
    TerminalRejectRecord,
>
    decreases s.len(),
{
    if s.len() == 0 {
        s
    } else {
        let rest = rejections_without(s.drop_last(), proposal_id);
        if s.last().proposal_id@ != proposal_id {
            rest.push(s.last())
        } else {
            rest
        }
    }
}

/// The state after an accepted message.
pub open spec fn proposal_effect(
    session: Session,
    old: ProposalView,
    new: ProposalView,
    env: Envelope,
    payload: MessagePayload,
) -> bool {
    let mt = env.message_type@;
    if mt == "Commitment"@ {
        new == ProposalView { phase: ProposalPhase::Committed, ..old }
    } else if mt == "Proposal"@ {
        match payload {
            MessagePayload::Proposal(p) => new == refreshed(
                session,
                ProposalView {
                    proposals: old.proposals.push(
                        (
                            p.proposal_id,
                            ProposalRecord {
                                proposal_id: p.proposal_id,
                                title: p.title,
                                summary: p.summary,
                                details: p.details,
                                tags: p.tags,
                                proposer: env.sender,
                                supersedes_proposal_id: None,
                                disposition: ProposalDisposition::Live,
                            },
                        ),
                    ),
                    ..old
                },
            ),
            _ => false,
        }
    } else if mt == "CounterProposal"@ {
        match payload {
            MessagePayload::CounterProposal(p) => {
                let rec = new.proposals.last().1;
                &&& new == refreshed(session, ProposalView { proposals: new.proposals, ..old })
                &&& new.proposals.drop_last() == old.proposals
                &&& new.proposals.len() == old.proposals.len() + 1
                &&& new.proposals.last().0 == p.proposal_id
                &&& rec == ProposalRecord {
                    proposal_id: p.proposal_id,
                    title: p.title,
                    summary: p.summary,
                    details: p.details,
                    tags: rec.tags,
                    proposer: env.sender,
                    supersedes_proposal_id: Some(p.supersedes_proposal_id),
                    disposition: ProposalDisposition::Live,
                }
                &&& rec.tags@.len() == 0
            },
            _ => false,
        }
    } else if mt == "Accept"@ {
        match payload {
            MessagePayload::Accept(p) => new == refreshed(
                session,
                ProposalView { accepts: old.accepts.insert(env.sender@, p.proposal_id), ..old },
            ),
            _ => false,
        }
    } else if mt == "Reject"@ {
        match payload {
            MessagePayload::ProposalReject(p) => if p.terminal || terminal_on_any_reject(session) {
                new == refreshed(
                    session,
                    ProposalView {
                        terminal_rejections: old.terminal_rejections.push(
                            TerminalRejectRecord {
                                proposal_id: p.proposal_id,
                                sender: env.sender,
                                reason: p.reason,
                            },
                        ),
                        ..old
                    },
                )
            } else {
                new == refreshed(session, old)
            },
            _ => false,
        }
    } else if mt == "Withdraw"@ {
        match payload {
            MessagePayload::Withdraw(p) => {
                let i = seq_key_index(old.proposals, p.proposal_id@);
                let entry = old.proposals[i];
                new == refreshed(
                    session,
                    ProposalView {
                        proposals: old.proposals.update(
                            i,
                            (
                                entry.0,
                                ProposalRecord {
                                    disposition: ProposalDisposition::Withdrawn,
                                    ..entry.1
                                },
                            ),
                        ),
                        accepts: accepts_without(old.accepts, p.proposal_id@),
                        terminal_rejections: rejections_without(
                            old.terminal_rejections,
                            p.proposal_id@,
                        ),
                        ..old
                    },
                )
            },
            _ => false,
        }
    } else {
        false
    }
}

/// Commitment per the commitment authority; everything else from declared participants.
pub open spec fn proposal_sender_allowed(session: Session, env: Envelope) -> bool {
    if env.message_type@ == "Commitment"@ {
        commitment_authorized(session, env.sender@)
    } else {
        seq_has(session.participants@, env.sender@)
    }
}

/// What `on_message` promises: a refused message leaves the session as it
/// was; an accepted one advances the mode state and, for a Commitment,
/// resolves the session with the envelope's payload.
pub open spec fn proposal_outcome(
    before: Session,
    after: Session,
    r: Result<ModeResponse, MacpError>,
    env: Envelope,
    payload: MessagePayload,
    j: PolicyJudgments,
) -> bool {
    match proposal_view_of(before.mode_state) {
        None => r == Err::<ModeResponse, MacpError>(MacpError::InvalidModeState)
            && after == before,
        Some(v) => match proposal_rejection(before, v, env, payload) {
            Some(e) => r == Err::<ModeResponse, MacpError>(e) && after == before,
            None => {
                &&& same_bindings(before, after)
                &&& after.mode_state matches ModeState::Proposal(ns)
                    && proposal_effect(before, v, ns@, env, payload)
                &&& if env.message_type@ == "Commitment"@ {
                    r == Ok::<ModeResponse, MacpError>(ModeResponse::PersistAndResolve)
                        && resolved_with(before, after, env.payload@)
                } else {
                    r == Ok::<ModeResponse, MacpError>(ModeResponse::PersistState)
                        && after.state == before.state
                        && after.resolution == before.resolution
                }
            },
        },
    }
}

/// What `on_session_start` promises.
pub open spec fn proposal_started(before: Session, after: Session, r: Result<ModeResponse, MacpError>) -> bool {
    if before.participants@.len() == 0 {
        r == Err::<ModeResponse, MacpError>(MacpError::InvalidPayload) && after == before
    } else {
        &&& r == Ok::<ModeResponse, MacpError>(ModeResponse::PersistState)
        &&& after == (Session { mode_state: after.mode_state, ..before })
        &&& proposal_view_of(after.mode_state) == Some(empty_proposal())
        &&& after.mode_state is Proposal
    }
}

pub struct ProposalMode;

impl ProposalMode {
    pub fn default_state() -> (r: ProposalState)
        ensures
            r@ == empty_proposal(),
    {
        let r = ProposalState {
            proposals: KeyedVec::new(),
            accepts: KeyedVec::new(),
            terminal_rejections: Vec::new(),
            phase: ProposalPhase::Negotiating,
        };
        assert(r@.proposals =~= Seq::<(String, ProposalRecord)>::empty());
        r
    }

    /// Whether the proposal exists and has not been withdrawn.
    fn live_proposal(state: &ProposalState, proposal_id: &str) -> (r: bool)
        ensures
            r == is_live(state@, proposal_id@),
    {
        match state.proposals.get(proposal_id) {
            Some(record) => record.disposition == ProposalDisposition::Live,
            None => false,
        }
    }

    fn accepted(accepts: &KeyedVec<String>, who: &str, proposal_id: &str) -> (r: bool)
        ensures
            r == accepted_by(accepts@, who@, proposal_id@),
    {
        match accepts.get(who) {
            Some(pid) => str_eq(pid.as_str(), proposal_id),
            None => false,
        }
    }

    fn check_acceptance_criterion(
        criterion: &str,
        session: &Session,
        accepts: &KeyedVec<String>,
        proposal_id: &str,
        proposer: &str,
    ) -> (r: bool)
        ensures
            r == criterion_met(
                criterion@,
                session.participants@,
                session.initiator_sender@,
                accepts@,
                proposal_id@,
                proposer@,
            ),
    {
        if str_eq(criterion, "counterparty") {
            // All participants except the proposer must accept
            let n = session.participants.len();
            let mut i: usize = 0;
            while i < n
                invariant
                    n == session.participants@.len(),
                    i <= n,
                    criterion@ == "counterparty"@,
                    forall|k: int|
                        0 <= k < i && (#[trigger] session.participants@[k])@ != proposer@
                            ==> accepted_by(accepts@, session.participants@[k]@, proposal_id@),
                decreases n - i,
            {
                let p = session.participants[i].as_str();
                if !str_eq(p, proposer) && !Self::accepted(accepts, p, proposal_id) {
                    assert(session.participants@[i as int]@ != proposer@ && !accepted_by(
                        accepts@,
                        session.participants@[i as int]@,
                        proposal_id@,
                    ));
                    return false;
                }
                i = i + 1;
            }
            true
        } else if str_eq(criterion, "initiator") {
            Self::accepted(accepts, session.initiator_sender.as_str(), proposal_id)
        } else {
            participants_all_accept(&session.participants, accepts, proposal_id)
        }
    }

    fn criterion(session: &Session) -> (r: &str)
        ensures
            r@ == acceptance_criterion(*session),
    {
        match &session.policy_definition {
            Some(p) => p.rules.proposal.acceptance.criterion.as_str(),
            None => "all_parties",
        }
    }

    /// The phase that the state's contents call for.
    fn current_phase(session: &Session, state: &ProposalState) -> (r: ProposalPhase)
        ensures
            r == phase_of(*session, state@),
    {
        if state.terminal_rejections.len() > 0 {
            return ProposalPhase::TerminalRejected;
        }
        let criterion = Self::criterion(session);
        let entries = state.proposals.entries();
        let n = entries.len();
        let mut i: usize = 0;
        while i < n
            invariant
                n == entries@.len(),
                entries@ == state@.proposals,
                state@.terminal_rejections.len() == 0,
                criterion@ == acceptance_criterion(*session),
                i <= n,
                forall|k: int|
                    0 <= k < i ==> !((#[trigger] entries@[k]).1.disposition
                        == ProposalDisposition::Live && criterion_met(
                        acceptance_criterion(*session),
                        session.participants@,
                        session.initiator_sender@,
                        state@.accepts,
                        entries@[k].1.proposal_id@,
                        entries@[k].1.proposer@,
                    )),
            decreases n - i,
        {
            let record = &entries[i].1;
            if record.disposition == ProposalDisposition::Live && Self::check_acceptance_criterion(
                criterion,
                session,
                &state.accepts,
                record.proposal_id.as_str(),
                record.proposer.as_str(),
            ) {
                assert(state@.proposals[i as int] == entries@[i as int]);
                assert(criterion_met(
                    acceptance_criterion(*session),
                    session.participants@,
                    session.initiator_sender@,
                    state@.accepts,
                    state@.proposals[i as int].1.proposal_id@,
                    state@.proposals[i as int].1.proposer@,
                ));
                return ProposalPhase::Converged;
            }
            i = i + 1;
        }
        ProposalPhase::Negotiating
    }

    /// The number of counter-proposals on record.
    fn count_counter_proposals(state: &ProposalState) -> (r: usize)
        ensures
            r == counter_count(state@.proposals),
    {
        let entries = state.proposals.entries();
        let n = entries.len();
        let mut count: usize = 0;
        let mut i: usize = 0;
        while i < n
            invariant
                n == entries@.len(),
                i <= n,
                count <= i,
                count == counter_count(entries@.take(i as int)),
            decreases n - i,
        {
            assert(entries@.take(i + 1).drop_last() =~= entries@.take(i as int));
            if entries[i].1.supersedes_proposal_id.is_some() {
                count = count + 1;
            }
            i = i + 1;
        }
        assert(entries@.take(n as int) =~= entries@);
        count
    }

    fn max_rounds_reached_exec(session: &Session, state: &ProposalState) -> (r: bool)
        ensures
            r == max_rounds_reached(*session, state@),
    {
        match &session.policy_definition {
            Some(p) => {
                let max_rounds = p.rules.proposal.counter_proposal.max_rounds;
                max_rounds > 0 && Self::count_counter_proposals(state) >= max_rounds
            },
            None => false,
        }
    }

    fn terminal_on_any_reject_exec(session: &Session) -> (r: bool)
        ensures
            r == terminal_on_any_reject(*session),
    {
        match &session.policy_definition {
            Some(p) => p.rules.proposal.rejection.terminal_on_any_reject,
            None => false,
        }
    }

    /// Decide whether a message is accepted in state `st`.
    pub fn check_message(
        session: &Session,
        st: &ProposalState,
        env: &Envelope,
        payload: &MessagePayload,
    ) -> (r: Result<(), MacpError>)
        ensures
            match proposal_rejection(*session, st@, *env, *payload) {
                Some(e) => r == Err::<(), MacpError>(e),
                None => r is Ok,
            },
    {
        if st.phase == ProposalPhase::Committed {
            return Err(MacpError::SessionNotOpen);
        }
        let mt = env.message_type.as_str();
        if str_eq(mt, "Proposal") {
            match payload {
                MessagePayload::Proposal(p) => {
                    if str_is_blank(p.proposal_id.as_str()) || st.proposals.contains_key(
                        p.proposal_id.as_str(),
                    ) {
                        return Err(MacpError::InvalidPayload);
                    }
                    Ok(())
                },
                _ => Err(MacpError::InvalidPayload),
            }
        } else if str_eq(mt, "CounterProposal") {
            match payload {
                MessagePayload::CounterProposal(p) => {
                    if str_is_blank(p.proposal_id.as_str()) || str_is_blank(
                        p.supersedes_proposal_id.as_str(),
                    ) || st.proposals.contains_key(p.proposal_id.as_str())
                        || !st.proposals.contains_key(p.supersedes_proposal_id.as_str()) {
                        return Err(MacpError::InvalidPayload);
                    }
                    // RFC-MACP-0012: enforce max_rounds at submission time to prevent
                    // unbounded state growth. The evaluator also checks at commitment.
                    if Self::max_rounds_reached_exec(session, st) {
                        return Err(MacpError::InvalidPayload);
                    }
                    Ok(())
                },
                _ => Err(MacpError::InvalidPayload),
            }
        } else if str_eq(mt, "Accept") {
            match payload {
                MessagePayload::Accept(p) => {
                    if !Self::live_proposal(st, p.proposal_id.as_str()) {
                        return Err(MacpError::InvalidPayload);
                    }
                    Ok(())
                },
                _ => Err(MacpError::InvalidPayload),
            }
        } else if str_eq(mt, "Reject") {
            match payload {
                MessagePayload::ProposalReject(p) => {
                    if !st.proposals.contains_key(p.proposal_id.as_str()) {
                        return Err(MacpError::InvalidPayload);
                    }
                    Ok(())
                },
                _ => Err(MacpError::InvalidPayload),
            }
        } else if str_eq(mt, "Withdraw") {
            match payload {
                MessagePayload::Withdraw(p) => {
                    match st.proposals.get(p.proposal_id.as_str()) {
                        Some(record) => {
                            if !str_eq(record.proposer.as_str(), env.sender.as_str()) {
                                return Err(MacpError::Forbidden);
                            }
                            if record.disposition == ProposalDisposition::Withdrawn {
                                return Err(MacpError::InvalidPayload);
                            }
                            Ok(())
                        },
                        None => Err(MacpError::InvalidPayload),
                    }
                },
                _ => Err(MacpError::InvalidPayload),
            }
        } else if str_eq(mt, "Commitment") {
            match payload {
                MessagePayload::Commitment(c) => {
                    if !commitment_valid(session, c) {
                        return Err(MacpError::InvalidPayload);
                    }
                },
                _ => {
                    return Err(MacpError::InvalidPayload);
                },
            }
            let phase = Self::current_phase(session, st);
            if !(phase == ProposalPhase::Converged || phase == ProposalPhase::TerminalRejected) {
                return Err(MacpError::InvalidPayload);
            }
            // Evaluate governance policy if one is bound to the session.
            match &session.policy_definition {
                Some(policy) => {
                    if evaluate_proposal_commitment(policy, Self::count_counter_proposals(st)).is_deny() {
                        return Err(MacpError::PolicyDenied);
                    }
                },
                None => {},
            }
            Ok(())
        } else {
            Err(MacpError::InvalidPayload)
        }
    }

    /// The acceptances that do not name `proposal_id`.
    fn accepts_without_exec(accepts: &KeyedVec<String>, proposal_id: &str) -> (r: KeyedVec<String>)
        ensures
            r@ == accepts_without(accepts@, proposal_id@),
    {
        let entries = accepts.entries();
        let n = entries.len();
        let mut out: KeyedVec<String> = KeyedVec::new();
        let mut i: usize = 0;
        while i < n
            invariant
                n == entries@.len(),
                entries@ == accepts.entries_seq(),
                crate::keyed::keys_unique(entries@),
                i <= n,
                out@ =~= Map::new(
                    |k: Seq<char>| seq_has_key(entries@.take(i as int), k) && accepts@[k]@ != proposal_id@,
                    |k: Seq<char>| accepts@[k],
                ),
            decreases n - i,
        {
            let ghost prev = out@;
            proof {
                lemma_key_index(entries@, i as int);
                assert forall|k: Seq<char>|
                    seq_has_key(entries@.take(i + 1), k) <==> (seq_has_key(entries@.take(i as int), k)
                        || k == entries@[i as int].0@) by {
                    if seq_has_key(entries@.take(i + 1), k) {
                        let j = choose|j: int| 0 <= j < entries@.take(i + 1).len() && (#[trigger] entries@.take(i + 1)[j]).0@ == k;
                        if j < i {
                            assert(entries@.take(i as int)[j] == entries@.take(i + 1)[j]);
                        }
                    }
                    if seq_has_key(entries@.take(i as int), k) {
                        let j = choose|j: int| 0 <= j < entries@.take(i as int).len() && (#[trigger] entries@.take(i as int)[j]).0@ == k;
                        assert(entries@.take(i + 1)[j] == entries@.take(i as int)[j]);
                    }
                    if k == entries@[i as int].0@ {
                        assert(entries@.take(i + 1)[i as int] == entries@[i as int]);
                    }
                }
            }
            if !str_eq(entries[i].1.as_str(), proposal_id) {
                out.insert(entries[i].0.clone(), entries[i].1.clone());
            }
            i = i + 1;
        }
        proof {
            assert(entries@.take(n as int) =~= entries@);
        }
        out
    }

    /// The terminal rejections that do not name `proposal_id`.
    fn rejections_without_exec(rejections: &Vec<TerminalRejectRecord>, proposal_id: &str) -> (r: Vec<
        TerminalRejectRecord,
    >)
        ensures
            r@ == rejections_without(rejections@, proposal_id@),
    {
        let n = rejections.len();
        let mut kept: Vec<TerminalRejectRecord> = Vec::new();
        let mut i: usize = 0;
        while i < n
            invariant
                n == rejections@.len(),
                i <= n,
                kept@ == rejections_without(rejections@.take(i as int), proposal_id@),
            decreases n - i,
        {
            assert(rejections@.take(i + 1).drop_last() =~= rejections@.take(i as int));
            assert(rejections@.take(i + 1).last() == rejections@[i as int]);
            let record = &rejections[i];
            if !str_eq(record.proposal_id.as_str(), proposal_id) {
                kept.push(
                    TerminalRejectRecord {
                        proposal_id: record.proposal_id.clone(),
                        sender: record.sender.clone(),
                        reason: record.reason.clone(),
                    },
                );
            }
            i = i + 1;
        }
        assert(rejections@.take(n as int) =~= rejections@);
        kept
    }

    /// Apply an accepted message to the state.
    fn advance(
        session: &Session,
        st: ProposalState,
        env: &Envelope,
        payload: MessagePayload,
    ) -> (r: ProposalState)
        requires
            proposal_rejection(*session, st@, *env, payload) is None,
        ensures
            proposal_effect(*session, st@, r@, *env, payload),
    {
        let ghost old_v = st@;
        let mut st = st;
        let mt = env.message_type.as_str();
        if str_eq(mt, "Commitment") {
            st.phase = ProposalPhase::Committed;
            return st;
        }
        if str_eq(mt, "Proposal") {
            match payload {
                MessagePayload::Proposal(p) => {
                    let key = p.proposal_id.clone();
                    st.proposals.insert(
                        key,
                        ProposalRecord {
                            proposal_id: p.proposal_id,
                            title: p.title,
                            summary: p.summary,
                            details: p.details,
                            tags: p.tags,
                            proposer: env.sender.clone(),
                            supersedes_proposal_id: None,
                            disposition: ProposalDisposition::Live,
                        },
                    );
                },
                _ => {},
            }
        } else if str_eq(mt, "CounterProposal") {
            match payload {
                MessagePayload::CounterProposal(p) => {
                    let key = p.proposal_id.clone();
                    st.proposals.insert(
                        key,
                        ProposalRecord {
                            proposal_id: p.proposal_id,
                            title: p.title,
                            summary: p.summary,
                            details: p.details,
                            tags: Vec::new(),
                            proposer: env.sender.clone(),
                            supersedes_proposal_id: Some(p.supersedes_proposal_id),
                            disposition: ProposalDisposition::Live,
                        },
                    );
                    assert(st@.proposals.drop_last() =~= old_v.proposals);
                },
                _ => {},
            }
        } else if str_eq(mt, "Accept") {
            match payload {
                MessagePayload::Accept(p) => {
                    st.accepts.insert(env.sender.clone(), p.proposal_id);
                },
                _ => {},
            }
        } else if str_eq(mt, "Reject") {
            match payload {
                MessagePayload::ProposalReject(p) => {
                    // RFC-MACP-0012: terminal_on_any_reject overrides per-message terminal flag
                    if p.terminal || Self::terminal_on_any_reject_exec(session) {
                        st.terminal_rejections.push(
                            TerminalRejectRecord {
                                proposal_id: p.proposal_id,
                                sender: env.sender.clone(),
                                reason: p.reason,
                            },
                        );
                    }
                },
                _ => {},
            }
        } else if str_eq(mt, "Withdraw") {
            match payload {
                MessagePayload::Withdraw(p) => {
                    let placeholder = ProposalRecord {
                        proposal_id: String::new(),
                        title: String::new(),
                        summary: String::new(),
                        details: Vec::new(),
                        tags: Vec::new(),
                        proposer: String::new(),
                        supersedes_proposal_id: None,
                        disposition: ProposalDisposition::Withdrawn,
                    };
                    let ghost e0 = st.proposals.entries_seq();
                    let ghost idx = seq_key_index(e0, p.proposal_id@);
                    match st.proposals.replace(p.proposal_id.as_str(), placeholder) {
                        Some(record) => {
                            proof {
                                lemma_key_index(e0, idx);
                                lemma_key_index(st.proposals.entries_seq(), idx);
                            }
                            let mut record = record;
                            record.disposition = ProposalDisposition::Withdrawn;
                            st.proposals.replace(p.proposal_id.as_str(), record);
                            assert(st.proposals.entries_seq() =~= e0.update(
                                idx,
                                (
                                    e0[idx].0,
                                    ProposalRecord {
                                        disposition: ProposalDisposition::Withdrawn,
                                        ..e0[idx].1
                                    },
                                ),
                            ));
                        },
                        None => {},
                    }
                    st.accepts = Self::accepts_without_exec(&st.accepts, p.proposal_id.as_str());
                    st.terminal_rejections = Self::rejections_without_exec(
                        &st.terminal_rejections,
                        p.proposal_id.as_str(),
                    );
                },
                _ => {},
            }
        }
        let ghost pre = st@;
        let phase = Self::current_phase(session, &st);
        st.phase = phase;
        assert(st@ == refreshed(*session, pre));
        st
    }
}

impl Mode for ProposalMode {
    fn authorize_sender(&self, session: &Session, env: &Envelope) -> (r: Result<(), MacpError>)
        ensures
            r is Ok <==> proposal_sender_allowed(*session, *env),
            r matches Err(e) ==> e == MacpError::Forbidden,
    {
        if str_eq(env.message_type.as_str(), "Commitment") {
            check_commitment_authority(session, env.sender.as_str())
        } else if is_declared_participant(&session.participants, env.sender.as_str()) {
            Ok(())
        } else {
            Err(MacpError::Forbidden)
        }
    }

    /// A proposal session needs declared participants; it starts with no proposals.
    fn on_session_start(&self, session: &mut Session, env: &Envelope) -> (r: Result<
        ModeResponse,
        MacpError,
    >)
        ensures
            proposal_started(*old(session), *final(session), r),
    {
        if session.participants.len() == 0 {
            return Err(MacpError::InvalidPayload);
        }
        session.mode_state = ModeState::Proposal(Self::default_state());
        Ok(ModeResponse::PersistState)
    }

    fn on_message(
        &self,
        session: &mut Session,
        env: &Envelope,
        payload: MessagePayload,
        judgments: &PolicyJudgments,
    ) -> (r: Result<ModeResponse, MacpError>)
        ensures
            proposal_outcome(*old(session), *final(session), r, *env, payload, *judgments),
    {
        match &session.mode_state {
            ModeState::Empty => {
                let st = Self::default_state();
                Self::check_message(session, &st, env, &payload)?;
            },
            ModeState::Proposal(st) => {
                Self::check_message(session, st, env, &payload)?;
            },
            _ => {
                return Err(MacpError::InvalidModeState);
            },
        }
        let ghost before = *session;
        let mut taken = ModeState::Empty;
        std::mem::swap(&mut taken, &mut session.mode_state);
        let st = match taken {
            ModeState::Proposal(st) => st,
            _ => Self::default_state(),
        };
        let is_commitment = str_eq(env.message_type.as_str(), "Commitment");
        assert(same_bindings(before, *session));
        let next = Self::advance(session, st, env, payload);
        session.mode_state = ModeState::Proposal(next);
        if is_commitment {
            session.resolution = Some(env.payload.clone());
            session.state = SessionState::Resolved;
            Ok(ModeResponse::PersistAndResolve)
        } else {
            Ok(ModeResponse::PersistState)
        }
    }
}

} // verus!
