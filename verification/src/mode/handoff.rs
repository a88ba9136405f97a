//! Handoff Mode (RFC-MACP-0010): scoped transfer of responsibility through
//! offers, context, and the target's answer, closed by a Commitment.
use vstd::prelude::*;
use crate::error::MacpError;
use crate::keyed::{lemma_key_index, seq_key_index, seq_to_map, KeyedVec};
use crate::mode::util::{
    check_commitment_authority, commitment_authorized, commitment_valid, is_declared_participant,
    valid_commitment,
};
use crate::mode::{resolved_with, same_bindings, Mode, ModeResponse, PolicyJudgments};
use crate::pb::{Envelope, MessagePayload};
use crate::policy::evaluator::{evaluate_handoff_commitment, handoff_verdict};
use crate::session::{ModeState, Session, SessionState};
use crate::text::{owned, seq_has, str_eq};

verus! {

#[derive(Debug, Clone, Copy, PartialEq, Eq, Structural)]
pub enum HandoffDisposition {
    Offered,
    Accepted,
    Declined,
}

pub struct HandoffOfferRecord {
    pub handoff_id: String,
    pub target_participant: String,
    pub scope: String,
    pub reason: String,
    pub offered_by: String,
    pub disposition: HandoffDisposition,
    pub accepted_by: Option<String>,
    pub declined_by: Option<String>,
    pub outcome_reason: Option<String>,
    pub offered_at_ms: i64,
}

pub struct HandoffContextRecord {
    pub content_type: String,
    pub context: Vec<u8>,
    pub sender: String,
}

/// Handoff state: offers by id (in arrival order) and the context sent for each.
pub struct HandoffState {
    pub offers: KeyedVec<HandoffOfferRecord>,
    pub contexts: KeyedVec<Vec<HandoffContextRecord>>,
}

pub ghost struct HandoffView {
    pub offers: Seq<(String, HandoffOfferRecord)>,
    pub contexts: Map<Seq<char>, Seq<HandoffContextRecord>>,
}

impl View for HandoffState {
    type V = HandoffView;

    open spec fn view(&self) -> HandoffView {
        HandoffView {
            offers: self.offers.entries_seq(),
            contexts: self.contexts@.map_values(|v: Vec<HandoffContextRecord>| v@),
        }
    }
}

pub open spec fn empty_handoff() -> HandoffView {
    HandoffView { offers: Seq::empty(), contexts: Map::empty() }
}

/// The handoff state that a stored mode state stands for.
pub open spec fn handoff_view_of(ms: ModeState) -> Option<HandoffView> {
    match ms {
        ModeState::Empty => Some(empty_handoff()),
        ModeState::Handoff(s) => Some(s@),
        _ => None,
    }
}

/// The offers by id.
pub open spec fn offer_map(v: HandoffView) -> Map<Seq<char>, HandoffOfferRecord> {
    seq_to_map(v.offers)
}

/// Some offer still awaits its target's answer.
pub open spec fn some_pending(v: HandoffView) -> bool {
    exists|i: int| 0 <= i < v.offers.len() && (#[trigger] v.offers[i]).1.disposition == HandoffDisposition::Offered
}

/// The bound policy's implicit-accept timeout, when it sets one.
pub open spec fn implicit_timeout(session: Session) -> Option<u64> {
    match session.policy_definition {
        Some(p) => if p.rules.handoff.acceptance.implicit_accept_timeout_ms > 0 {
            Some(p.rules.handoff.acceptance.implicit_accept_timeout_ms)
        } else {
            None
        },
        None => None,
    }
}

/// An offer that the target has left unanswered for `timeout` ms by `now`
/// (offers with no offer time never time out).
pub open spec fn times_out(rec: HandoffOfferRecord, now: i64, timeout: u64) -> bool {
    &&& rec.disposition == HandoffDisposition::Offered
    &&& rec.offered_at_ms > 0
    &&& now - rec.offered_at_ms >= timeout as i64
}

/// `new` is `old` with every timed-out offer accepted on its target's behalf.
pub open spec fn implicitly_accepted(
    old: Seq<(String, HandoffOfferRecord)>,
    new: Seq<(String, HandoffOfferRecord)>,
    timeout: Option<u64>,
    now: i64,
) -> bool {
    &&& new.len() == old.len()
    &&& forall|i: int|
        0 <= i < old.len() ==> if timeout matches Some(t) && times_out(
            (#[trigger] old[i]).1,
            now,
            t,
        ) {
            &&& new[i].0 == old[i].0
            &&& new[i].1 == HandoffOfferRecord {
                disposition: HandoffDisposition::Accepted,
                accepted_by: Some(old[i].1.target_participant),
                outcome_reason: new[i].1.outcome_reason,
                ..old[i].1
            }
            &&& new[i].1.outcome_reason matches Some(r) && r@ == "implicit accept (timeout)"@
        } else {
            new[i] == old[i]
        }
}

/// Some offer has been answered, counting those that time out by `now`.
pub open spec fn commitment_ready(v: HandoffView, timeout: Option<u64>, now: i64) -> bool {
    exists|i: int|
        0 <= i < v.offers.len() && ((#[trigger] v.offers[i]).1.disposition
            == HandoffDisposition::Accepted || v.offers[i].1.disposition
            == HandoffDisposition::Declined || (timeout matches Some(t) && times_out(
            v.offers[i].1,
            now,
            t,
        )))
}

/// The bound policy denies a commitment.
pub open spec fn handoff_policy_denies(session: Session) -> bool {
    match session.policy_definition {
        Some(p) => handoff_verdict(p).0,
        None => false,
    }
}

/// Why a message is refused in the given handoff state at time `now`, or `None`.
pub open spec fn handoff_rejection(
    session: Session,
    v: HandoffView,
    env: Envelope,
    payload: MessagePayload,
    now: i64,
) -> Option<MacpError> {
    let mt = env.message_type@;
    let sender = env.sender@;
    let offers = offer_map(v);
    if mt == "HandoffOffer"@ {
        match payload {
            MessagePayload::HandoffOffer(p) => if p.handoff_id@.len() == 0
                || p.target_participant@.len() == 0 || offers.contains_key(p.handoff_id@)
                || !seq_has(session.participants@, p.target_participant@) || p.target_participant@
                == sender || some_pending(v) {
                Some(MacpError::InvalidPayload)
            } else {
                None
            },
            _ => Some(MacpError::InvalidPayload),
        }
    } else if mt == "HandoffContext"@ {
        match payload {
            MessagePayload::HandoffContext(p) => if !offers.contains_key(p.handoff_id@) {
                Some(MacpError::InvalidPayload)
            } else if offers[p.handoff_id@].offered_by@ != sender {
                Some(MacpError::Forbidden)
            } else if offers[p.handoff_id@].disposition != HandoffDisposition::Offered {
                Some(MacpError::InvalidPayload)
            } else {
                None
            },
            _ => Some(MacpError::InvalidPayload),
        }
    } else if mt == "HandoffAccept"@ {
        match payload {
            MessagePayload::HandoffAccept(p) => answer_rejection(
                v,
                p.handoff_id@,
                p.accepted_by@,
                sender,
            ),
            _ => Some(MacpError::InvalidPayload),
        }
    } else if mt == "HandoffDecline"@ {
        match payload {
            MessagePayload::HandoffDecline(p) => answer_rejection(
                v,
                p.handoff_id@,
                p.declined_by@,
                sender,
            ),
            _ => Some(MacpError::InvalidPayload),
        }
    } else if mt == "Commitment"@ {
        if valid_commitment(session, payload) is None || !commitment_ready(
            v,
            implicit_timeout(session),
            now,
        ) {
            Some(MacpError::InvalidPayload)
        } else if handoff_policy_denies(session) {
            Some(MacpError::PolicyDenied)
        } else {
            None
        }
    } else {
        Some(MacpError::InvalidPayload)
    }
}

/// Why the target's answer to an offer is refused, or `None`.
pub open spec fn answer_rejection(
    v: HandoffView,
    handoff_id: Seq<char>,
    named: Seq<char>,
    sender: Seq<char>,
) -> Option<MacpError> {
    let offers = offer_map(v);
    if !offers.contains_key(handoff_id) {
        Some(MacpError::InvalidPayload)
    } else if offers[handoff_id].target_participant@ != sender {
        Some(MacpError::Forbidden)
    } else if named.len() > 0 && named != sender {
        Some(MacpError::InvalidPayload)
    } else if offers[handoff_id].disposition != HandoffDisposition::Offered {
        Some(MacpError::InvalidPayload)
    } else {
        None
    }
}

/// The offers with the one for `handoff_id` answered.
pub open spec fn answered(
    offers: Seq<(String, HandoffOfferRecord)>,
    handoff_id: Seq<char>,
    record: HandoffOfferRecord,
) -> Seq<(String, HandoffOfferRecord)> {
    let i = seq_key_index(offers, handoff_id);
    offers.update(i, (offers[i].0, record))
}

/// The state after an accepted message at time `now`.
pub open spec fn handoff_effect(
    session: Session,
    old: HandoffView,
    new: HandoffView,
    env: Envelope,
    payload: MessagePayload,
    now: i64,
) -> bool {
    let sender = env.sender;
    let offers = offer_map(old);
    match payload {
        MessagePayload::HandoffOffer(p) => new == HandoffView {
            offers: old.offers.push(
                (
                    p.handoff_id,
                    HandoffOfferRecord {
                        handoff_id: p.handoff_id,
                        target_participant: p.target_participant,
                        scope: p.scope,
                        reason: p.reason,
                        offered_by: sender,
                        disposition: HandoffDisposition::Offered,
                        accepted_by: None,
                        declined_by: None,
                        outcome_reason: None,
                        offered_at_ms: 0,
                    },
                ),
            ),
            ..old
        },
        MessagePayload::HandoffContext(p) => {
            let prior = if old.contexts.contains_key(p.handoff_id@) {
                old.contexts[p.handoff_id@]
            } else {
                Seq::empty()
            };
            new == HandoffView {
                contexts: old.contexts.insert(
                    p.handoff_id@,
                    prior.push(
                        HandoffContextRecord {
                            content_type: p.content_type,
                            context: p.context,
                            sender,
                        },
                    ),
                ),
                ..old
            }
        },
        MessagePayload::HandoffAccept(p) => new == HandoffView {
            offers: answered(
                old.offers,
                p.handoff_id@,
                HandoffOfferRecord {
                    disposition: HandoffDisposition::Accepted,
                    accepted_by: Some(sender),
                    outcome_reason: Some(p.reason),
                    ..offers[p.handoff_id@]
                },
            ),
            ..old
        },
        MessagePayload::HandoffDecline(p) => new == HandoffView {
            offers: answered(
                old.offers,
                p.handoff_id@,
                HandoffOfferRecord {
                    disposition: HandoffDisposition::Declined,
                    declined_by: Some(sender),
                    outcome_reason: Some(p.reason),
                    ..offers[p.handoff_id@]
                },
            ),
            ..old
        },
        _ => new.contexts == old.contexts && implicitly_accepted(
            old.offers,
            new.offers,
            implicit_timeout(session),
            now,
        ),
    }
}

/// Commitment per the commitment authority; HandoffOffer and HandoffContext
/// from the initiator; anything from declared participants.
pub open spec fn handoff_sender_allowed(session: Session, env: Envelope) -> bool {
    let mt = env.message_type@;
    if mt == "Commitment"@ {
        commitment_authorized(session, env.sender@)
    } else {
        ((mt == "HandoffOffer"@ || mt == "HandoffContext"@) && env.sender@
            == session.initiator_sender@) || seq_has(session.participants@, env.sender@)
    }
}

/// What `on_message_at` promises for a message handled at time `now`.
pub open spec fn handoff_outcome(
    before: Session,
    after: Session,
    r: Result<ModeResponse, MacpError>,
    env: Envelope,
    payload: MessagePayload,
    now: i64,
) -> bool {
    match handoff_view_of(before.mode_state) {
        None => r == Err::<ModeResponse, MacpError>(MacpError::InvalidModeState) && after == before,
        Some(v) => match handoff_rejection(before, v, env, payload, now) {
            Some(e) => r == Err::<ModeResponse, MacpError>(e) && after == before,
            None => {
                &&& same_bindings(before, after)
                &&& after.mode_state matches ModeState::Handoff(ns) && handoff_effect(
                    before,
                    v,
                    ns@,
                    env,
                    payload,
                    now,
                )
                &&& if env.message_type@ == "Commitment"@ {
                    r == Ok::<ModeResponse, MacpError>(ModeResponse::PersistAndResolve)
                        && resolved_with(before, after, env.payload@)
                } else {
                    r == Ok::<ModeResponse, MacpError>(ModeResponse::PersistState) && after.state
                        == before.state && after.resolution == before.resolution
                }
            },
        },
    }
}

/// What `on_session_start` promises.
pub open spec fn handoff_started(before: Session, after: Session, r: Result<ModeResponse, MacpError>) -> bool {
    if before.participants@.len() < 2 || !seq_has(before.participants@, before.initiator_sender@) {
        r == Err::<ModeResponse, MacpError>(MacpError::InvalidPayload) && after == before
    } else {
        &&& r == Ok::<ModeResponse, MacpError>(ModeResponse::PersistState)
        &&& after == (Session { mode_state: after.mode_state, ..before })
        &&& handoff_view_of(after.mode_state) == Some(empty_handoff())
        &&& after.mode_state is Handoff
    }
}

/// Reads the wall clock: `chrono::Utc::now().timestamp_millis()`. Nothing is
/// claimed of the value.
#[verifier::external_body]
fn now_unix_ms() -> i64 {
    chrono::Utc::now().timestamp_millis()
}

pub struct HandoffMode;

impl HandoffMode {
    pub fn default_state() -> (r: HandoffState)
        ensures
            r@ == empty_handoff(),
    {
        let r = HandoffState { offers: KeyedVec::new(), contexts: KeyedVec::new() };
        assert(r@.offers =~= Seq::<(String, HandoffOfferRecord)>::empty());
        assert(r@.contexts =~= Map::<Seq<char>, Seq<HandoffContextRecord>>::empty());
        r
    }

    fn some_pending_exec(st: &HandoffState) -> (r: bool)
        ensures
            r == some_pending(st@),
    {
        let entries = st.offers.entries();
        let n = entries.len();
        let mut i: usize = 0;
        while i < n
            invariant
                n == entries@.len(),
                entries@ == st@.offers,
                i <= n,
                forall|k: int|
                    0 <= k < i ==> (#[trigger] entries@[k]).1.disposition
                        != HandoffDisposition::Offered,
            decreases n - i,
        {
            if entries[i].1.disposition == HandoffDisposition::Offered {
                assert(st@.offers[i as int] == entries@[i as int]);
                return true;
            }
            i = i + 1;
        }
        false
    }

    fn implicit_timeout_exec(session: &Session) -> (r: Option<u64>)
        ensures
            r == implicit_timeout(*session),
    {
        match &session.policy_definition {
            Some(p) => {
                let t = p.rules.handoff.acceptance.implicit_accept_timeout_ms;
                if t > 0 {
                    Some(t)
                } else {
                    None
                }
            },
            None => None,
        }
    }

    fn times_out_exec(rec: &HandoffOfferRecord, now: i64, timeout: u64) -> (r: bool)
        ensures
            r == times_out(*rec, now, timeout),
    {
        let t = timeout as i64;
        rec.disposition == HandoffDisposition::Offered && rec.offered_at_ms > 0 && (now as i128)
            - (rec.offered_at_ms as i128) >= t as i128
    }

    fn commitment_ready_exec(st: &HandoffState, timeout: Option<u64>, now: i64) -> (r: bool)
        ensures
            r == commitment_ready(st@, timeout, now),
    {
        let entries = st.offers.entries();
        let n = entries.len();
        let mut i: usize = 0;
        while i < n
            invariant
                n == entries@.len(),
                entries@ == st@.offers,
                i <= n,
                forall|k: int|
                    0 <= k < i ==> !((#[trigger] entries@[k]).1.disposition
                        == HandoffDisposition::Accepted || entries@[k].1.disposition
                        == HandoffDisposition::Declined || (timeout matches Some(t) && times_out(
                        entries@[k].1,
                        now,
                        t,
                    ))),
            decreases n - i,
        {
            let rec = &entries[i].1;
            let timed_out = match timeout {
                Some(t) => Self::times_out_exec(rec, now, t),
                None => false,
            };
            if rec.disposition == HandoffDisposition::Accepted || rec.disposition
                == HandoffDisposition::Declined || timed_out {
                assert(st@.offers[i as int] == entries@[i as int]);
                return true;
            }
            i = i + 1;
        }
        false
    }

    fn check_answer(st: &HandoffState, handoff_id: &String, named: &String, sender: &str) -> (r:
        Result<(), MacpError>)
        ensures
            match answer_rejection(st@, handoff_id@, named@, sender@) {
                Some(e) => r == Err::<(), MacpError>(e),
                None => r is Ok,
            },
    {
        match st.offers.get(handoff_id.as_str()) {
            Some(offer) => {
                if !str_eq(offer.target_participant.as_str(), sender) {
                    return Err(MacpError::Forbidden);
                }
                if named.as_str().unicode_len() != 0 && !str_eq(named.as_str(), sender) {
                    return Err(MacpError::InvalidPayload);
                }
                if offer.disposition != HandoffDisposition::Offered {
                    return Err(MacpError::InvalidPayload);
                }
                Ok(())
            },
            None => Err(MacpError::InvalidPayload),
        }
    }

    /// Decide whether a message is accepted in state `st` at time `now`.
    pub fn check_message(
        session: &Session,
        st: &HandoffState,
        env: &Envelope,
        payload: &MessagePayload,
        now: i64,
    ) -> (r: Result<(), MacpError>)
        ensures
            match handoff_rejection(*session, st@, *env, *payload, now) {
                Some(e) => r == Err::<(), MacpError>(e),
                None => r is Ok,
            },
    {
        let mt = env.message_type.as_str();
        let sender = env.sender.as_str();
        if str_eq(mt, "HandoffOffer") {
            match payload {
                MessagePayload::HandoffOffer(p) => {
                    if p.handoff_id.as_str().unicode_len() == 0
                        || p.target_participant.as_str().unicode_len() == 0
                        || st.offers.contains_key(p.handoff_id.as_str()) || !is_declared_participant(
                        &session.participants,
                        p.target_participant.as_str(),
                    ) || str_eq(p.target_participant.as_str(), sender) || Self::some_pending_exec(st) {
                        return Err(MacpError::InvalidPayload);
                    }
                    Ok(())
                },
                _ => Err(MacpError::InvalidPayload),
            }
        } else if str_eq(mt, "HandoffContext") {
            match payload {
                MessagePayload::HandoffContext(p) => {
                    match st.offers.get(p.handoff_id.as_str()) {
                        Some(offer) => {
                            if !str_eq(offer.offered_by.as_str(), sender) {
                                return Err(MacpError::Forbidden);
                            }
                            if offer.disposition != HandoffDisposition::Offered {
                                return Err(MacpError::InvalidPayload);
                            }
                            Ok(())
                        },
                        None => Err(MacpError::InvalidPayload),
                    }
                },
                _ => Err(MacpError::InvalidPayload),
            }
        } else if str_eq(mt, "HandoffAccept") {
            match payload {
                MessagePayload::HandoffAccept(p) => Self::check_answer(
                    st,
                    &p.handoff_id,
                    &p.accepted_by,
                    sender,
                ),
                _ => Err(MacpError::InvalidPayload),
            }
        } else if str_eq(mt, "HandoffDecline") {
            match payload {
                MessagePayload::HandoffDecline(p) => Self::check_answer(
                    st,
                    &p.handoff_id,
                    &p.declined_by,
                    sender,
                ),
                _ => Err(MacpError::InvalidPayload),
            }
        } else if str_eq(mt, "Commitment") {
            match payload {
                MessagePayload::Commitment(c) => {
                    if !commitment_valid(session, c) {
                        return Err(MacpError::InvalidPayload);
                    }
                },
                _ => {
                    return Err(MacpError::InvalidPayload);
                },
            }
            // RFC-MACP-0012: lazy implicit_accept_timeout_ms check
            let timeout = Self::implicit_timeout_exec(session);
            if !Self::commitment_ready_exec(st, timeout, now) {
                return Err(MacpError::InvalidPayload);
            }
            // Evaluate governance policy if one is bound to the session.
            match &session.policy_definition {
                Some(policy) => {
                    if evaluate_handoff_commitment(policy).is_deny() {
                        return Err(MacpError::PolicyDenied);
                    }
                },
                None => {},
            }
            Ok(())
        } else {
            Err(MacpError::InvalidPayload)
        }
    }

    /// A blank offer, held in an entry while its record is taken out.
    fn placeholder() -> (r: HandoffOfferRecord)
        ensures
            r.handoff_id@.len() == 0,
            r.target_participant@.len() == 0,
            r.scope@.len() == 0,
            r.reason@.len() == 0,
            r.offered_by@.len() == 0,
            r.disposition == HandoffDisposition::Offered,
            r.accepted_by is None,
            r.declined_by is None,
            r.outcome_reason is None,
            r.offered_at_ms == 0,
    {
        HandoffOfferRecord {
            handoff_id: String::new(),
            target_participant: String::new(),
            scope: String::new(),
            reason: String::new(),
            offered_by: String::new(),
            disposition: HandoffDisposition::Offered,
            accepted_by: None,
            declined_by: None,
            outcome_reason: None,
            offered_at_ms: 0,
        }
    }

    /// Accept, on their targets' behalf, the offers that timed out by `now`.
    fn apply_implicit_accepts(offers: &mut KeyedVec<HandoffOfferRecord>, timeout: Option<u64>, now: i64)
        ensures
            implicitly_accepted(old(offers).entries_seq(), final(offers).entries_seq(), timeout, now),
    {
        let ghost orig = offers.entries_seq();
        let n = offers.entries().len();
        let mut i: usize = 0;
        while i < n
            invariant
                n == orig.len(),
                i <= n,
                crate::keyed::keys_unique(orig),
                crate::keyed::keys_unique(offers.entries_seq()),
                offers.entries_seq().len() == n,
                forall|k: int|
                    0 <= k < n ==> (#[trigger] offers.entries_seq()[k]).0 == orig[k].0,
                forall|k: int| i <= k < n ==> #[trigger] offers.entries_seq()[k] == orig[k],
                forall|k: int|
                    0 <= k < i ==> if timeout matches Some(t) && times_out(
                        (#[trigger] orig[k]).1,
                        now,
                        t,
                    ) {
                        &&& offers.entries_seq()[k].1 == HandoffOfferRecord {
                            disposition: HandoffDisposition::Accepted,
                            accepted_by: Some(orig[k].1.target_participant),
                            outcome_reason: offers.entries_seq()[k].1.outcome_reason,
                            ..orig[k].1
                        }
                        &&& offers.entries_seq()[k].1.outcome_reason matches Some(r) && r@
                            == "implicit accept (timeout)"@
                    } else {
                        offers.entries_seq()[k] == orig[k]
                    },
            decreases n - i,
        {
            let due = match timeout {
                Some(t) => Self::times_out_exec(&offers.entries()[i].1, now, t),
                None => false,
            };
            if due {
                let key = offers.entries()[i].0.clone();
                let ghost e0 = offers.entries_seq();
                proof {
                    lemma_key_index(e0, i as int);
                }
                match offers.replace(key.as_str(), Self::placeholder()) {
                    Some(record) => {
                        proof {
                            lemma_key_index(offers.entries_seq(), i as int);
                        }
                        let mut record = record;
                        let target = record.target_participant.clone();
                        record.disposition = HandoffDisposition::Accepted;
                        record.accepted_by = Some(target);
                        record.outcome_reason = Some(owned("implicit accept (timeout)"));
                        offers.replace(key.as_str(), record);
                    },
                    None => {},
                }
            }
            i = i + 1;
        }
        proof {
            assert(offers.entries_seq().len() == orig.len());
        }
    }

    /// Record the target's answer to the offer `handoff_id`.
    fn answer(
        offers: &mut KeyedVec<HandoffOfferRecord>,
        handoff_id: &str,
        accept: bool,
        sender: String,
        reason: String,
    )
        requires
            old(offers)@.contains_key(handoff_id@),
        ensures
            final(offers).entries_seq() == answered(
                old(offers).entries_seq(),
                handoff_id@,
                if accept {
                    HandoffOfferRecord {
                        disposition: HandoffDisposition::Accepted,
                        accepted_by: Some(sender),
                        outcome_reason: Some(reason),
                        ..old(offers)@[handoff_id@]
                    }
                } else {
                    HandoffOfferRecord {
                        disposition: HandoffDisposition::Declined,
                        declined_by: Some(sender),
                        outcome_reason: Some(reason),
                        ..old(offers)@[handoff_id@]
                    }
                },
            ),
    {
        let ghost e0 = offers.entries_seq();
        let ghost idx = seq_key_index(e0, handoff_id@);
        match offers.replace(handoff_id, Self::placeholder()) {
            Some(record) => {
                proof {
                    lemma_key_index(e0, idx);
                    lemma_key_index(offers.entries_seq(), idx);
                }
                let mut record = record;
                if accept {
                    record.disposition = HandoffDisposition::Accepted;
                    record.accepted_by = Some(sender);
                } else {
                    record.disposition = HandoffDisposition::Declined;
                    record.declined_by = Some(sender);
                }
                record.outcome_reason = Some(reason);
                offers.replace(handoff_id, record);
            },
            None => {},
        }
    }

    /// Handle a message at time `now` (ms since the Unix epoch): validate it
    /// and, when it is accepted, apply it to the session. A rejected message
    /// leaves the session as it was.
    pub fn on_message_at(
        &self,
        session: &mut Session,
        env: &Envelope,
        payload: MessagePayload,
        now: i64,
    ) -> (r: Result<ModeResponse, MacpError>)
        ensures
            handoff_outcome(*old(session), *final(session), r, *env, payload, now),
    {
        match &session.mode_state {
            ModeState::Empty => {
                let st = Self::default_state();
                Self::check_message(session, &st, env, &payload, now)?;
            },
            ModeState::Handoff(st) => {
                Self::check_message(session, st, env, &payload, now)?;
            },
            _ => {
                return Err(MacpError::InvalidModeState);
            },
        }
        let mut taken = ModeState::Empty;
        std::mem::swap(&mut taken, &mut session.mode_state);
        let st = match taken {
            ModeState::Handoff(st) => st,
            _ => Self::default_state(),
        };
        let is_commitment = str_eq(env.message_type.as_str(), "Commitment");
        let next = Self::advance(session, st, env, payload, now);
        session.mode_state = ModeState::Handoff(next);
        if is_commitment {
            session.resolution = Some(env.payload.clone());
            session.state = SessionState::Resolved;
            Ok(ModeResponse::PersistAndResolve)
        } else {
            Ok(ModeResponse::PersistState)
        }
    }

    /// Apply an accepted message to the state.
    fn advance(
        session: &Session,
        st: HandoffState,
        env: &Envelope,
        payload: MessagePayload,
        now: i64,
    ) -> (r: HandoffState)
        requires
            handoff_rejection(*session, st@, *env, payload, now) is None,
        ensures
            handoff_effect(*session, st@, r@, *env, payload, now),
    {
        let ghost old_v = st@;
        let mut st = st;
        match payload {
            MessagePayload::HandoffOffer(p) => {
                let key = p.handoff_id.clone();
                st.offers.insert(
                    key,
                    HandoffOfferRecord {
                        handoff_id: p.handoff_id,
                        target_participant: p.target_participant,
                        scope: p.scope,
                        reason: p.reason,
                        offered_by: env.sender.clone(),
                        disposition: HandoffDisposition::Offered,
                        accepted_by: None,
                        declined_by: None,
                        outcome_reason: None,
                        offered_at_ms: 0,
                    },
                );
            },
            MessagePayload::HandoffContext(p) => {
                let record = HandoffContextRecord {
                    content_type: p.content_type,
                    context: p.context,
                    sender: env.sender.clone(),
                };
                let key = p.handoff_id;
                let ghost k = key@;
                let ghost rec = record;
                match st.contexts.replace(key.as_str(), Vec::new()) {
                    Some(list) => {
                        let mut list = list;
                        list.push(record);
                        st.contexts.replace(key.as_str(), list);
                    },
                    None => {
                        let mut list = Vec::new();
                        list.push(record);
                        st.contexts.insert(key, list);
                    },
                }
                proof {
                    assert(st@.contexts =~= old_v.contexts.insert(
                        k,
                        (if old_v.contexts.contains_key(k) {
                            old_v.contexts[k]
                        } else {
                            Seq::empty()
                        }).push(rec),
                    ));
                }
            },
            MessagePayload::HandoffAccept(p) => {
                Self::answer(&mut st.offers, p.handoff_id.as_str(), true, env.sender.clone(), p.reason);
            },
            MessagePayload::HandoffDecline(p) => {
                Self::answer(&mut st.offers, p.handoff_id.as_str(), false, env.sender.clone(), p.reason);
            },
            _ => {
                let timeout = Self::implicit_timeout_exec(session);
                Self::apply_implicit_accepts(&mut st.offers, timeout, now);
            },
        }
        st
    }
}

impl Mode for HandoffMode {
    fn authorize_sender(&self, session: &Session, env: &Envelope) -> (r: Result<(), MacpError>)
        ensures
            r is Ok <==> handoff_sender_allowed(*session, *env),
            r matches Err(e) ==> e == MacpError::Forbidden,
    {
        let mt = env.message_type.as_str();
        let sender = env.sender.as_str();
        if str_eq(mt, "Commitment") {
            check_commitment_authority(session, sender)
        } else if (str_eq(mt, "HandoffOffer") || str_eq(mt, "HandoffContext")) && str_eq(
            sender,
            session.initiator_sender.as_str(),
        ) {
            Ok(())
        } else if is_declared_participant(&session.participants, sender) {
            Ok(())
        } else {
            Err(MacpError::Forbidden)
        }
    }

    /// A handoff session needs at least two declared participants, the initiator among them.
    fn on_session_start(&self, session: &mut Session, env: &Envelope) -> (r: Result<
        ModeResponse,
        MacpError,
    >)
        ensures
            handoff_started(*old(session), *final(session), r),
    {
        if session.participants.len() < 2 {
            return Err(MacpError::InvalidPayload);
        }
        if !is_declared_participant(&session.participants, session.initiator_sender.as_str()) {
            return Err(MacpError::InvalidPayload);
        }
        session.mode_state = ModeState::Handoff(Self::default_state());
        Ok(ModeResponse::PersistState)
    }

    /// Handle a message at the current wall-clock time (which only the
    /// implicit-accept timeout reads).
    fn on_message(
        &self,
        session: &mut Session,
        env: &Envelope,
        payload: MessagePayload,
        judgments: &PolicyJudgments,
    ) -> (r: Result<ModeResponse, MacpError>)
        ensures
            exists|now: i64| #[trigger] handoff_outcome(*old(session), *final(session), r, *env, payload, now),
    {
        let now = now_unix_ms();
        let r = self.on_message_at(session, env, payload, now);
        assert(handoff_outcome(*old(session), *session, r, *env, payload, now));
        r
    }
}

} // verus!
