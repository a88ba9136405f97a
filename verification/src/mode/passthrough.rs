//! Generic handler for extension modes registered at run time.
use vstd::prelude::*;
use crate::error::MacpError;
use crate::json::{json_string_of, member, push_member, utf8_bytes};
use crate::mode::util::{valid_commitment, validate_commitment_payload_for_session};
use crate::mode::{resolved_with, same_bindings, Mode, ModeResponse, PolicyJudgments};
use crate::pb::{Envelope, MessagePayload};
use crate::session::{ModeState, Session, SessionState};
use crate::text::{owned, seq_has, str_eq, vec_has};

verus! {

/// Generic extension mode handler for dynamically registered modes.
///
/// Accepts any message type listed in the mode descriptor. Commitment messages
/// from the initiator resolve the session. All other messages are accepted and
/// the payload is persisted as mode state.
pub struct PassthroughMode {
    pub allowed_message_types: Vec<String>,
}

/// The JSON resolution of a passthrough commitment: its action and id.
pub open spec fn commitment_resolution_text(action: Seq<char>, commitment_id: Seq<char>) -> Seq<char> {
    "{"@ + member("action"@, json_string_of(action)) + ","@ + member(
        "commitment_id"@,
        json_string_of(commitment_id),
    ) + "}"@
}

/// The message type is one the mode accepts (any, when none are listed).
pub open spec fn type_allowed(allowed: Seq<String>, message_type: Seq<char>) -> bool {
    allowed.len() == 0 || seq_has(allowed, message_type)
}

/// What `on_message` promises.
pub open spec fn passthrough_outcome(
    allowed: Seq<String>,
    before: Session,
    after: Session,
    r: Result<ModeResponse, MacpError>,
    env: Envelope,
    payload: MessagePayload,
) -> bool {
    if !type_allowed(allowed, env.message_type@) {
        r == Err::<ModeResponse, MacpError>(MacpError::InvalidPayload) && after == before
    } else if env.message_type@ == "Commitment"@ {
        match valid_commitment(before, payload) {
            None => r == Err::<ModeResponse, MacpError>(MacpError::InvalidPayload) && after == before,
            Some(c) => {
                &&& r == Ok::<ModeResponse, MacpError>(ModeResponse::Resolve)
                &&& same_bindings(before, after)
                &&& after.mode_state == before.mode_state
                &&& resolved_with(
                    before,
                    after,
                    vstd::utf8::encode_utf8(commitment_resolution_text(c.action@, c.commitment_id@)),
                )
            },
        }
    } else {
        &&& r == Ok::<ModeResponse, MacpError>(ModeResponse::PersistState)
        &&& same_bindings(before, after)
        &&& after.mode_state matches ModeState::Raw(bytes) && bytes@ == env.payload@
        &&& after.state == before.state
        &&& after.resolution == before.resolution
    }
}

/// Commitment from the initiator only; anything else from declared
/// participants, or from anyone when none are declared.
pub open spec fn passthrough_sender_allowed(session: Session, env: Envelope) -> bool {
    if env.message_type@ == "Commitment"@ {
        env.sender@ == session.initiator_sender@
    } else {
        session.participants@.len() == 0 || seq_has(session.participants@, env.sender@)
    }
}

impl PassthroughMode {
    fn copy_bytes(bytes: &Vec<u8>) -> (r: Vec<u8>)
        ensures
            r@ == bytes@,
    {
        let n = bytes.len();
        let mut out: Vec<u8> = Vec::new();
        let mut i: usize = 0;
        while i < n
            invariant
                n == bytes@.len(),
                i <= n,
                out@ == bytes@.take(i as int),
            decreases n - i,
        {
            out.push(bytes[i]);
            assert(out@ =~= bytes@.take(i + 1));
            i = i + 1;
        }
        assert(out@ =~= bytes@);
        out
    }
}

impl Mode for PassthroughMode {
    /// Extension sessions keep no mode state at start.
    fn on_session_start(&self, session: &mut Session, env: &Envelope) -> (r: Result<
        ModeResponse,
        MacpError,
    >)
        ensures
            r == Ok::<ModeResponse, MacpError>(ModeResponse::NoOp),
            *final(session) == *old(session),
    {
        Ok(ModeResponse::NoOp)
    }

    fn on_message(
        &self,
        session: &mut Session,
        env: &Envelope,
        payload: MessagePayload,
        judgments: &PolicyJudgments,
    ) -> (r: Result<ModeResponse, MacpError>)
        ensures
            passthrough_outcome(
                self.allowed_message_types@,
                *old(session),
                *final(session),
                r,
                *env,
                payload,
            ),
    {
        if self.allowed_message_types.len() != 0 && !vec_has(
            &self.allowed_message_types,
            env.message_type.as_str(),
        ) {
            return Err(MacpError::InvalidPayload);
        }
        if str_eq(env.message_type.as_str(), "Commitment") {
            let commitment = validate_commitment_payload_for_session(session, payload)?;
            let mut text = owned("{");
            let action = crate::json::json_quote(commitment.action.as_str());
            push_member(&mut text, "action", action.as_str());
            text.append(",");
            let id = crate::json::json_quote(commitment.commitment_id.as_str());
            push_member(&mut text, "commitment_id", id.as_str());
            text.append("}");
            assert(text@ =~= commitment_resolution_text(commitment.action@, commitment.commitment_id@));
            session.resolution = Some(utf8_bytes(&text));
            session.state = SessionState::Resolved;
            return Ok(ModeResponse::Resolve);
        }
        session.mode_state = ModeState::Raw(Self::copy_bytes(&env.payload));
        Ok(ModeResponse::PersistState)
    }

    fn authorize_sender(&self, session: &Session, env: &Envelope) -> (r: Result<(), MacpError>)
        ensures
            r is Ok <==> passthrough_sender_allowed(*session, *env),
            r matches Err(e) ==> e == MacpError::Forbidden,
    {
        if str_eq(env.message_type.as_str(), "Commitment") {
            if !str_eq(env.sender.as_str(), session.initiator_sender.as_str()) {
                return Err(MacpError::Forbidden);
            }
            return Ok(());
        }
        if session.participants.len() != 0 && !vec_has(&session.participants, env.sender.as_str()) {
            return Err(MacpError::Forbidden);
        }
        Ok(())
    }
}

} // verus!
