//! The session model and canonical SessionStart validation.
use vstd::prelude::*;
use crate::error::MacpError;
use crate::keyed::KeyedVec;
use crate::mode::decision::DecisionState;
use crate::mode::handoff::HandoffState;
use crate::mode::multi_round::MultiRoundState;
use crate::mode::proposal::ProposalState;
use crate::mode::quorum::QuorumState;
use crate::mode::task::TaskState;
use crate::pb::{MessagePayload, Root, SessionStartPayload};
use crate::policy::PolicyDefinition;
use crate::text::{is_blank, owned, seq_has, str_eq, str_is_blank, texts, vec_has};

verus! {

#[derive(Debug, Clone, Copy, PartialEq, Eq, Structural)]
pub enum SessionState {
    Open,
    Resolved,
    Expired,
}

/// The state a mode keeps for a session.
pub enum ModeState {
    /// Nothing stored yet.
    Empty,
    /// Opaque bytes (descriptor-driven extension modes).
    Raw(Vec<u8>),
    Decision(DecisionState),
    Proposal(ProposalState),
    Task(TaskState),
    Handoff(HandoffState),
    Quorum(QuorumState),
    MultiRound(MultiRoundState),
}

pub struct Session {
    pub session_id: String,
    pub state: SessionState,
    pub ttl_expiry: i64,
    pub ttl_ms: i64,
    pub started_at_unix_ms: i64,
    pub resolution: Option<Vec<u8>>,
    pub mode: String,
    pub mode_state: ModeState,
    pub participants: Vec<String>,
    /// Message ids accepted in this session.
    pub seen_message_ids: Vec<String>,
    pub intent: String,
    pub mode_version: String,
    pub configuration_version: String,
    pub policy_version: String,
    pub context: Vec<u8>,
    pub roots: Vec<Root>,
    pub initiator_sender: String,
    /// Accepted messages per sender.
    pub participant_message_counts: KeyedVec<u64>,
    /// Time of each sender's last accepted message.
    pub participant_last_seen: KeyedVec<i64>,
    pub policy_definition: Option<PolicyDefinition>,
}

/// The TTL given to sessions whose start payload sets none.
pub const DEFAULT_TTL_MS: i64 = 60_000;

/// The longest TTL a session may ask for (24 hours).
pub const MAX_TTL_MS: i64 = 86_400_000;

/// A lowercase hexadecimal digit.
pub open spec fn is_lower_hex(c: char) -> bool {
    ('0' <= c && c <= '9') || ('a' <= c && c <= 'f')
}

/// A character of the URL-safe base64 alphabet.
pub open spec fn is_base64url_char(c: char) -> bool {
    ('A' <= c && c <= 'Z') || ('a' <= c && c <= 'z') || ('0' <= c && c <= '9') || c == '-' || c
        == '_'
}

/// A UUID of version 4 or 7 in hyphenated lowercase form.
pub open spec fn is_uuid_v4_or_v7(s: Seq<char>) -> bool {
    &&& s.len() == 36
    &&& forall|i: int|
        0 <= i < 36 ==> if i == 8 || i == 13 || i == 18 || i == 23 {
            s[i] == '-'
        } else {
            is_lower_hex(#[trigger] s[i])
        }
    &&& (s[14] == '4' || s[14] == '7')
}

/// An opaque token of at least 22 URL-safe base64 characters.
pub open spec fn is_base64url_token(s: Seq<char>) -> bool {
    s.len() >= 22 && forall|i: int| 0 <= i < s.len() ==> is_base64url_char(#[trigger] s[i])
}

/// Session ids must be UUID v4/v7 in hyphenated lowercase form or base64url
/// tokens of 22 or more characters; short or human-readable ids are refused.
pub open spec fn session_id_acceptable(s: Seq<char>) -> bool {
    is_uuid_v4_or_v7(s) || is_base64url_token(s)
}

fn char_is_lower_hex(c: char) -> (r: bool)
    ensures
        r == is_lower_hex(c),
{
    ('0' <= c && c <= '9') || ('a' <= c && c <= 'f')
}

fn char_is_base64url(c: char) -> (r: bool)
    ensures
        r == is_base64url_char(c),
{
    ('A' <= c && c <= 'Z') || ('a' <= c && c <= 'z') || ('0' <= c && c <= '9') || c == '-' || c
        == '_'
}

fn looks_like_uuid(s: &str) -> (r: bool)
    ensures
        r == is_uuid_v4_or_v7(s@),
{
    let n = s.unicode_len();
    if n != 36 {
        return false;
    }
    let mut i: usize = 0;
    while i < 36
        invariant
            n == s@.len(),
            n == 36,
            i <= 36,
            forall|k: int|
                0 <= k < i ==> if k == 8 || k == 13 || k == 18 || k == 23 {
                    s@[k] == '-'
                } else {
                    is_lower_hex(#[trigger] s@[k])
                },
        decreases 36 - i,
    {
        let c = s.get_char(i);
        let ok = if i == 8 || i == 13 || i == 18 || i == 23 {
            c == '-'
        } else {
            char_is_lower_hex(c)
        };
        if !ok {
            return false;
        }
        i = i + 1;
    }
    let version = s.get_char(14);
    version == '4' || version == '7'
}

fn looks_like_token(s: &str) -> (r: bool)
    ensures
        r == is_base64url_token(s@),
{
    let n = s.unicode_len();
    if n < 22 {
        return false;
    }
    let mut i: usize = 0;
    while i < n
        invariant
            n == s@.len(),
            i <= n,
            forall|k: int| 0 <= k < i ==> is_base64url_char(#[trigger] s@[k]),
        decreases n - i,
    {
        if !char_is_base64url(s.get_char(i)) {
            return false;
        }
        i = i + 1;
    }
    true
}

/// Reject session ids that are neither UUID v4/v7 nor long base64url tokens.
pub fn validate_session_id_for_acceptance(session_id: &str) -> (r: Result<(), MacpError>)
    ensures
        r is Ok <==> session_id_acceptable(session_id@),
        r matches Err(e) ==> e == MacpError::InvalidSessionId,
{
    if looks_like_uuid(session_id) || looks_like_token(session_id) {
        Ok(())
    } else {
        Err(MacpError::InvalidSessionId)
    }
}

/// The SessionStart payload an envelope carries, or `InvalidPayload` when it
/// did not decode as one.
pub fn parse_session_start_payload(payload: &MessagePayload) -> (r: Result<&SessionStartPayload, MacpError>)
    ensures
        match payload {
            MessagePayload::SessionStart(p) => r == Ok::<&SessionStartPayload, MacpError>(p),
            _ => r == Err::<&SessionStartPayload, MacpError>(MacpError::InvalidPayload),
        },
{
    match payload {
        MessagePayload::SessionStart(p) => Ok(p),
        _ => Err(MacpError::InvalidPayload),
    }
}

/// No two participants are the same.
pub open spec fn distinct_participants(p: Seq<String>) -> bool {
    forall|i: int, j: int| 0 <= i < j < p.len() ==> (#[trigger] p[i])@ != (#[trigger] p[j])@
}

/// A canonical SessionStart for standards-track modes and built-in
/// extensions: explicit unique non-blank participants, mode and configuration
/// versions, and a positive TTL.
pub open spec fn canonical_start(p: SessionStartPayload) -> bool {
    &&& p.participants@.len() > 0
    &&& forall|i: int| 0 <= i < p.participants@.len() ==> !is_blank((#[trigger] p.participants@[i])@)
    &&& distinct_participants(p.participants@)
    &&& !is_blank(p.mode_version@)
    &&& !is_blank(p.configuration_version@)
    &&& p.ttl_ms > 0
}

/// Validate the canonical SessionStart requirements.
pub fn validate_canonical_session_start_payload(p: &SessionStartPayload) -> (r: Result<(), MacpError>)
    ensures
        r is Ok <==> canonical_start(*p),
        r matches Err(e) ==> e == MacpError::InvalidPayload,
{
    let n = p.participants.len();
    if n == 0 {
        return Err(MacpError::InvalidPayload);
    }
    let mut i: usize = 0;
    while i < n
        invariant
            n == p.participants@.len(),
            i <= n,
            forall|k: int| 0 <= k < i ==> !is_blank((#[trigger] p.participants@[k])@),
            forall|a: int, b: int| 0 <= a < b < i ==> (#[trigger] p.participants@[a])@ != (
            #[trigger] p.participants@[b])@,
        decreases n - i,
    {
        if str_is_blank(p.participants[i].as_str()) {
            return Err(MacpError::InvalidPayload);
        }
        let mut k: usize = 0;
        while k < i
            invariant
                n == p.participants@.len(),
                i < n,
                k <= i,
                forall|a: int| 0 <= a < k ==> (#[trigger] p.participants@[a])@ != p.participants@[i as int]@,
            decreases i - k,
        {
            if str_eq(p.participants[k].as_str(), p.participants[i].as_str()) {
                assert(!distinct_participants(p.participants@)) by {
                    assert(p.participants@[k as int]@ == p.participants@[i as int]@);
                }
                return Err(MacpError::InvalidPayload);
            }
            k = k + 1;
        }
        i = i + 1;
    }
    if str_is_blank(p.mode_version.as_str()) || str_is_blank(p.configuration_version.as_str())
        || p.ttl_ms <= 0 {
        return Err(MacpError::InvalidPayload);
    }
    Ok(())
}

/// The session TTL a start payload asks for: the default when it sets none,
/// refused when negative or above the maximum.
pub open spec fn ttl_for(ttl_ms: i64) -> Option<i64> {
    if ttl_ms == 0 {
        Some(DEFAULT_TTL_MS)
    } else if ttl_ms < 0 || ttl_ms > MAX_TTL_MS {
        None
    } else {
        Some(ttl_ms)
    }
}

/// The session TTL in milliseconds, or `InvalidTtl`.
pub fn extract_ttl_ms(p: &SessionStartPayload) -> (r: Result<i64, MacpError>)
    ensures
        match ttl_for(p.ttl_ms) {
            Some(t) => r == Ok::<i64, MacpError>(t),
            None => r == Err::<i64, MacpError>(MacpError::InvalidTtl),
        },
{
    if p.ttl_ms == 0 {
        Ok(DEFAULT_TTL_MS)
    } else if p.ttl_ms < 0 || p.ttl_ms > MAX_TTL_MS {
        Err(MacpError::InvalidTtl)
    } else {
        Ok(p.ttl_ms)
    }
}

/// The TTL of a session read back from a snapshot: the stored TTL where it is
/// positive, else the span from the session's start to its deadline (held at
/// the bounds of `i64`), as snapshots that predate the stored TTL carry only
/// those two instants.
pub open spec fn recovered_ttl(ttl_ms: i64, ttl_expiry: i64, started_at_unix_ms: i64) -> i64 {
    if ttl_ms > 0 {
        ttl_ms
    } else if ttl_expiry - started_at_unix_ms > i64::MAX {
        i64::MAX
    } else if ttl_expiry - started_at_unix_ms < i64::MIN {
        i64::MIN
    } else {
        (ttl_expiry - started_at_unix_ms) as i64
    }
}

/// The TTL to give a session recovered from a snapshot.
pub fn recovered_ttl_ms(ttl_ms: i64, ttl_expiry: i64, started_at_unix_ms: i64) -> (r: i64)
    ensures
        r == recovered_ttl(ttl_ms, ttl_expiry, started_at_unix_ms),
{
    if ttl_ms > 0 {
        return ttl_ms;
    }
    let span: i128 = ttl_expiry as i128 - started_at_unix_ms as i128;
    if span > i64::MAX as i128 {
        i64::MAX
    } else if span < i64::MIN as i128 {
        i64::MIN
    } else {
        span as i64
    }
}

/// `n + 1`, held at `u64::MAX`.
pub open spec fn count_plus_one(n: u64) -> u64 {
    if n == u64::MAX {
        n
    } else {
        (n + 1) as u64
    }
}

/// The message id has been accepted in the session.
pub open spec fn has_seen(s: Session, message_id: Seq<char>) -> bool {
    seq_has(s.seen_message_ids@, message_id)
}

impl Session {
    /// Count one more accepted message from `sender`, seen at `now_ms`.
    pub fn record_participant_activity(&mut self, sender: &str, now_ms: i64)
        ensures
            final(self).participant_message_counts@ == old(self).participant_message_counts@.insert(
                sender@,
                count_plus_one(
                    if old(self).participant_message_counts@.contains_key(sender@) {
                        old(self).participant_message_counts@[sender@]
                    } else {
                        0
                    },
                ),
            ),
            final(self).participant_last_seen@ == old(self).participant_last_seen@.insert(
                sender@,
                now_ms,
            ),
            *final(self) == (Session {
                participant_message_counts: final(self).participant_message_counts,
                participant_last_seen: final(self).participant_last_seen,
                ..*old(self)
            }),
    {
        let count = match self.participant_message_counts.get(sender) {
            Some(c) => *c,
            None => 0,
        };
        self.participant_message_counts.insert(owned(sender), count.saturating_add(1));
        self.participant_last_seen.insert(owned(sender), now_ms);
    }

    /// Whether the message id has been accepted in this session.
    pub fn has_seen_message(&self, message_id: &str) -> (r: bool)
        ensures
            r == has_seen(*self, message_id@),
    {
        vec_has(&self.seen_message_ids, message_id)
    }

    /// Record an accepted message id.
    pub fn mark_seen(&mut self, message_id: &str)
        ensures
            has_seen(*final(self), message_id@),
            forall|m: Seq<char>| has_seen(*old(self), m) ==> has_seen(*final(self), m),
            *final(self) == (Session { seen_message_ids: final(self).seen_message_ids, ..*old(self) }),
            texts(final(self).seen_message_ids@) == if has_seen(*old(self), message_id@) {
                texts(old(self).seen_message_ids@)
            } else {
                texts(old(self).seen_message_ids@).push(message_id@)
            },
    {
        if !vec_has(&self.seen_message_ids, message_id) {
            let ghost before = self.seen_message_ids@;
            self.seen_message_ids.push(owned(message_id));
            proof {
                assert(self.seen_message_ids@[before.len() as int]@ == message_id@);
                assert forall|m: Seq<char>| seq_has(before, m) implies seq_has(self.seen_message_ids@, m) by {
                    let i = choose|i: int| 0 <= i < before.len() && (#[trigger] before[i])@ == m;
                    assert(self.seen_message_ids@[i] == before[i]);
                }
                assert(texts(self.seen_message_ids@) =~= texts(before).push(message_id@));
            }
        }
    }
}

} // verus!
