//! Checks shared by the coordination modes.
use vstd::prelude::*;
use crate::error::MacpError;
use crate::keyed::KeyedVec;
use crate::pb::{CommitmentPayload, MessagePayload};
use crate::session::Session;
use crate::text::{has_suffix, is_blank, seq_has, str_ends_with, str_eq, str_is_blank, vec_has};

verus! {

/// The action names an outcome that is negative by its suffix.
pub open spec fn is_negative_action(action: Seq<char>) -> bool {
    has_suffix(action, "rejected"@) || has_suffix(action, "failed"@) || has_suffix(action, "declined"@)
}

/// The action names an outcome that is positive by its suffix.
pub open spec fn is_positive_action(action: Seq<char>) -> bool {
    has_suffix(action, "selected"@) || has_suffix(action, "accepted"@) || has_suffix(
        action,
        "completed"@,
    ) || has_suffix(action, "approved"@)
}

/// `outcome_positive` agrees with the action (RFC-0001 §7.3).
pub open spec fn outcome_consistent(c: CommitmentPayload) -> bool {
    !(is_negative_action(c.action@) && c.outcome_positive) && !(is_positive_action(c.action@)
        && !c.outcome_positive)
}

/// A commitment is well formed for the session: its identifying fields are not
/// blank, it binds the session's mode and configuration versions (and its policy
/// version, when the session has one), and its outcome agrees with its action.
pub open spec fn commitment_valid_for(session: Session, c: CommitmentPayload) -> bool {
    &&& !is_blank(c.commitment_id@)
    &&& !is_blank(c.action@)
    &&& !is_blank(c.authority_scope@)
    &&& !is_blank(c.reason@)
    &&& c.mode_version@ == session.mode_version@
    &&& c.configuration_version@ == session.configuration_version@
    &&& (session.policy_version@.len() > 0 ==> c.policy_version@ == session.policy_version@)
    &&& outcome_consistent(c)
}

/// The commitment that an envelope carries, when it carries a valid one.
pub open spec fn valid_commitment(session: Session, payload: MessagePayload) -> Option<
    CommitmentPayload,
> {
    match payload {
        MessagePayload::Commitment(c) => if commitment_valid_for(session, c) {
            Some(c)
        } else {
            None
        },
        _ => None,
    }
}

/// The decoded commitment body, or `InvalidPayload` when the payload did not
/// decode as a `CommitmentPayload`.
pub fn decode_commitment_payload(payload: MessagePayload) -> (r: Result<
    CommitmentPayload,
    MacpError,
>)
    ensures
        match payload {
            MessagePayload::Commitment(c) => r == Ok::<CommitmentPayload, MacpError>(c),
            _ => r == Err::<CommitmentPayload, MacpError>(MacpError::InvalidPayload),
        },
{
    match payload {
        MessagePayload::Commitment(c) => Ok(c),
        _ => Err(MacpError::InvalidPayload),
    }
}

/// Whether a commitment is well formed for the session.
pub fn commitment_valid(session: &Session, c: &CommitmentPayload) -> (r: bool)
    ensures
        r == commitment_valid_for(*session, *c),
{
    !str_is_blank(c.commitment_id.as_str()) && !str_is_blank(c.action.as_str())
        && !str_is_blank(c.authority_scope.as_str()) && !str_is_blank(c.reason.as_str())
        && c.mode_version == session.mode_version
        && c.configuration_version == session.configuration_version
        && (session.policy_version.as_str().unicode_len() == 0
            || c.policy_version == session.policy_version)
        && validate_outcome_positive(c).is_ok()
}

/// Validate a Commitment against the session's bindings.
pub fn validate_commitment_payload_for_session(session: &Session, payload: MessagePayload) -> (r:
    Result<CommitmentPayload, MacpError>)
    ensures
        match valid_commitment(*session, payload) {
            Some(c) => r == Ok::<CommitmentPayload, MacpError>(c),
            None => r == Err::<CommitmentPayload, MacpError>(MacpError::InvalidPayload),
        },
{
    let commitment = decode_commitment_payload(payload)?;
    if str_is_blank(commitment.commitment_id.as_str()) || str_is_blank(commitment.action.as_str())
        || str_is_blank(commitment.authority_scope.as_str()) || str_is_blank(
        commitment.reason.as_str(),
    ) {
        return Err(MacpError::InvalidPayload);
    }
    if commitment.mode_version != session.mode_version || commitment.configuration_version
        != session.configuration_version {
        return Err(MacpError::InvalidPayload);
    }
    if session.policy_version.as_str().unicode_len() != 0 && commitment.policy_version
        != session.policy_version {
        return Err(MacpError::InvalidPayload);
    }
    validate_outcome_positive(&commitment)?;
    Ok(commitment)
}

/// Validate that `outcome_positive` is consistent with the `action` field.
/// Actions ending in `rejected`, `failed`, or `declined` must have `outcome_positive = false`.
/// Actions ending in `selected`, `accepted`, `completed`, or `approved` must have `outcome_positive = true`.
pub fn validate_outcome_positive(commitment: &CommitmentPayload) -> (r: Result<(), MacpError>)
    ensures
        r is Ok <==> outcome_consistent(*commitment),
        r matches Err(e) ==> e == MacpError::InvalidPayload,
{
    let action = commitment.action.as_str();
    let is_negative = str_ends_with(action, "rejected") || str_ends_with(action, "failed")
        || str_ends_with(action, "declined");
    let is_positive = str_ends_with(action, "selected") || str_ends_with(action, "accepted")
        || str_ends_with(action, "completed") || str_ends_with(action, "approved");
    if is_negative && commitment.outcome_positive {
        return Err(MacpError::InvalidPayload);
    }
    if is_positive && !commitment.outcome_positive {
        return Err(MacpError::InvalidPayload);
    }
    Ok(())
}

pub fn is_declared_participant(participants: &Vec<String>, sender: &str) -> (r: bool)
    ensures
        r == seq_has(participants@, sender@),
{
    vec_has(participants, sender)
}

/// Whether `sender` may emit a Commitment under the session's policy
/// (RFC-MACP-0012 §4): `any_participant` admits the initiator and declared
/// participants, `designated_role` admits the listed roles, and anything else
/// (and no policy) admits the initiator alone.
pub open spec fn commitment_authorized(session: Session, sender: Seq<char>) -> bool {
    match session.policy_definition {
        Some(policy) => {
            let authority = policy.rules.commitment.authority@;
            if authority == "any_participant"@ {
                sender == session.initiator_sender@ || seq_has(session.participants@, sender)
            } else if authority == "designated_role"@ {
                seq_has(policy.rules.commitment.designated_roles@, sender)
            } else {
                sender == session.initiator_sender@
            }
        },
        None => sender == session.initiator_sender@,
    }
}

/// Check whether the sender is authorized to commit per the policy's `commitment.authority` rule.
pub fn check_commitment_authority(session: &Session, sender: &str) -> (r: Result<(), MacpError>)
    ensures
        r is Ok <==> commitment_authorized(*session, sender@),
        r matches Err(e) ==> e == MacpError::Forbidden,
{
    let is_initiator = str_eq(sender, session.initiator_sender.as_str());
    match &session.policy_definition {
        Some(policy) => {
            let authority = policy.rules.commitment.authority.as_str();
            if str_eq(authority, "any_participant") {
                if is_initiator || is_declared_participant(&session.participants, sender) {
                    Ok(())
                } else {
                    Err(MacpError::Forbidden)
                }
            } else if str_eq(authority, "designated_role") {
                if vec_has(&policy.rules.commitment.designated_roles, sender) {
                    Ok(())
                } else {
                    Err(MacpError::Forbidden)
                }
            } else if is_initiator {
                Ok(())
            } else {
                Err(MacpError::Forbidden)
            }
        },
        None => {
            if is_initiator {
                Ok(())
            } else {
                Err(MacpError::Forbidden)
            }
        },
    }
}

/// Every participant's current acceptance names `proposal_id`.
pub open spec fn all_accept(
    participants: Seq<String>,
    accepts: Map<Seq<char>, String>,
    proposal_id: Seq<char>,
) -> bool {
    forall|i: int|
        0 <= i < participants.len() ==> accepts.contains_key((#[trigger] participants[i])@)
            && accepts[participants[i]@]@ == proposal_id
}

pub fn participants_all_accept(
    participants: &Vec<String>,
    accepts: &KeyedVec<String>,
    proposal_id: &str,
) -> (r: bool)
    ensures
        r == (participants@.len() > 0 && all_accept(participants@, accepts@, proposal_id@)),
{
    let n = participants.len();
    if n == 0 {
        return false;
    }
    let mut i: usize = 0;
    while i < n
        invariant
            n == participants@.len(),
            i <= n,
            forall|j: int|
                0 <= j < i ==> accepts@.contains_key((#[trigger] participants@[j])@)
                    && accepts@[participants@[j]@]@ == proposal_id@,
        decreases n - i,
    {
        match accepts.get(participants[i].as_str()) {
            Some(accepted) => {
                if !str_eq(accepted.as_str(), proposal_id) {
                    return false;
                }
            },
            None => {
                return false;
            },
        }
        i = i + 1;
    }
    true
}

} // verus!
