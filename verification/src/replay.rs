//! Rebuilding a session from its append-only log.
//!
//! A log starts with the session's `SessionStart`; each later `Incoming`
//! entry is an accepted envelope, `Internal` entries record expiry and
//! cancellation, and `Checkpoint` entries carry a serialized session. The
//! caller decodes each entry's payload under its message type, and, where a
//! checkpoint exists, the last one; the bound policy's floating-point
//! comparisons are worked out by `judge` on the session as replay reaches
//! each entry.
use vstd::prelude::*;
use crate::error::MacpError;
use crate::keyed::KeyedVec;
use crate::log_store::{copy_bytes, EntryKind, LogEntry};
use crate::mode::{ModeResponse, PolicyJudgments};
use crate::mode_registry::{
    factory_outcome, factory_sender_allowed, factory_started, ModeFactory, ModeRef, ModeRegistration,
    ModeRegistry,
};
use crate::pb::{Envelope, MessagePayload, Root, SessionStartPayload};
use crate::policy::registry::PolicyRegistry;
use crate::policy::{same_policy, PolicyDefinition};
use crate::runtime::saturating_sum;
use crate::session::{
    canonical_start, extract_ttl_ms, has_seen, parse_session_start_payload, ttl_for,
    validate_canonical_session_start_payload, ModeState, Session, SessionState,
};
use crate::text::{owned, str_eq, texts};

verus! {

/// The TTL given on replay to a non-strict mode's start that sets none.
pub const LEGACY_REPLAY_TTL_MS: i64 = 60_000;

/// The entry is an accepted `SessionStart`.
pub open spec fn is_session_start(e: LogEntry) -> bool {
    e.entry_kind == EntryKind::Incoming && e.message_type@ == "SessionStart"@
}

/// The position of the first accepted `SessionStart`.
pub open spec fn start_index(entries: Seq<LogEntry>) -> Option<int>
    decreases entries.len(),
{
    if entries.len() == 0 {
        None
    } else {
        match start_index(entries.drop_last()) {
            Some(i) => Some(i),
            None => if is_session_start(entries.last()) {
                Some(entries.len() - 1)
            } else {
                None
            },
        }
    }
}

/// The position of the last checkpoint.
pub open spec fn checkpoint_index(entries: Seq<LogEntry>) -> Option<int>
    decreases entries.len(),
{
    if entries.len() == 0 {
        None
    } else if entries.last().entry_kind == EntryKind::Checkpoint {
        Some(entries.len() - 1)
    } else {
        checkpoint_index(entries.drop_last())
    }
}

/// `env` is the envelope a logged entry stands for in a session of mode
/// `session_mode`: missing protocol versions read as `1.0`, a missing mode as
/// the session's, and a missing envelope timestamp as the time of receipt.
pub open spec fn replay_envelope(env: Envelope, session_mode: Seq<char>, session_id: Seq<char>, e: LogEntry) -> bool {
    &&& env.macp_version@ == if e.macp_version@.len() == 0 {
        "1.0"@
    } else {
        e.macp_version@
    }
    &&& env.mode@ == if e.mode@.len() == 0 {
        session_mode
    } else {
        e.mode@
    }
    &&& env.message_type@ == e.message_type@
    &&& env.message_id@ == e.message_id@
    &&& env.session_id@ == session_id
    &&& env.sender@ == e.sender@
    &&& env.timestamp_unix_ms == if e.timestamp_unix_ms != 0 {
        e.timestamp_unix_ms
    } else {
        e.received_at_ms
    }
    &&& env.payload@ == e.raw_payload@
}

/// `b` is `a` with the message id recorded.
pub open spec fn marked(a: Session, b: Session, id: Seq<char>) -> bool {
    &&& b == (Session { seen_message_ids: b.seen_message_ids, ..a })
    &&& texts(b.seen_message_ids@) == if has_seen(a, id) {
        texts(a.seen_message_ids@)
    } else {
        texts(a.seen_message_ids@).push(id)
    }
}

/// `b` is `a` with the message id recorded, unless the id is empty.
pub open spec fn marked_if_named(a: Session, b: Session, id: Seq<char>) -> bool {
    if id.len() == 0 {
        b == a
    } else {
        marked(a, b, id)
    }
}

/// An accepted envelope replayed on an open session: the sender is
/// authorized, the mode handles the message and the id is recorded.
pub open spec fn replay_outcome(
    f: ModeFactory,
    before: Session,
    env: Envelope,
    mid: Session,
    rm: Result<ModeResponse, MacpError>,
    after: Session,
    r: Result<(), MacpError>,
    session_id: Seq<char>,
    e: LogEntry,
    payload: MessagePayload,
    j: PolicyJudgments,
) -> bool {
    &&& replay_envelope(env, before.mode@, session_id, e)
    &&& if !factory_sender_allowed(f, before, env) {
        r == Err::<(), MacpError>(MacpError::Forbidden) && after == before
    } else {
        &&& factory_outcome(f, before, mid, rm, env, payload, j)
        &&& match rm {
            Ok(_) => r is Ok && marked_if_named(mid, after, e.message_id@),
            Err(x) => r == Err::<(), MacpError>(x) && after == mid,
        }
    }
}

/// One log entry replayed on a session of mode factory `f`. On a session no
/// longer open an accepted envelope only has its id recorded; `TtlExpired`
/// and `SessionCancel` events expire the session; checkpoints are skipped.
#[verifier::opaque]
pub open spec fn replay_step(
    f: ModeFactory,
    before: Session,
    after: Session,
    r: Result<(), MacpError>,
    session_id: Seq<char>,
    e: LogEntry,
    payload: MessagePayload,
    j: PolicyJudgments,
) -> bool {
    match e.entry_kind {
        EntryKind::Incoming => if before.state != SessionState::Open {
            r is Ok && marked_if_named(before, after, e.message_id@)
        } else {
            exists|env: Envelope, mid: Session, rm: Result<ModeResponse, MacpError>|
                #[trigger] replay_outcome(f, before, env, mid, rm, after, r, session_id, e, payload, j)
        },
        EntryKind::Internal => r is Ok && after == if e.message_type@ == "TtlExpired"@ || e.message_type@
            == "SessionCancel"@ {
            Session { state: SessionState::Expired, ..before }
        } else {
            before
        },
        EntryKind::Checkpoint => r is Ok && after == before,
    }
}

/// Replaying `entries` from position `i` onward on `s` can end in `out`
/// (the first failing entry's error, or the final session), for some
/// judgments of the bound policy at each entry.
pub open spec fn replays(
    f: ModeFactory,
    session_id: Seq<char>,
    entries: Seq<LogEntry>,
    payloads: Seq<MessagePayload>,
    i: int,
    s: Session,
    out: Result<Session, MacpError>,
) -> bool
    decreases entries.len() - i,
{
    if i < 0 || i >= entries.len() {
        out == Ok::<Session, MacpError>(s)
    } else {
        exists|j: PolicyJudgments, s2: Session, step: Result<(), MacpError>|
            #[trigger] replay_step(f, s, s2, step, session_id, entries[i], payloads[i], j) && match step {
                Err(x) => out == Err::<Session, MacpError>(x),
                Ok(_) => replays(f, session_id, entries, payloads, i + 1, s2, out),
            }
    }
}

/// The TTL a replayed start binds: a non-strict mode's unset TTL reads as
/// [`LEGACY_REPLAY_TTL_MS`]; otherwise the TTL rules of a live start.
pub open spec fn replay_ttl(p: SessionStartPayload, strict: bool) -> Option<i64> {
    if !strict && p.ttl_ms == 0 {
        Some(LEGACY_REPLAY_TTL_MS)
    } else {
        ttl_for(p.ttl_ms)
    }
}

/// A non-strict mode's start with no payload replays as an empty one.
pub open spec fn empty_start(e: LogEntry, reg: ModeRegistration) -> bool {
    e.raw_payload@.len() == 0 && !reg.strict_session_start
}

/// Why the entry cannot start a replay, or `None`.
pub open spec fn begin_error(
    reg: Map<Seq<char>, ModeRegistration>,
    e: LogEntry,
    payload: MessagePayload,
) -> Option<MacpError> {
    if e.mode@.len() == 0 {
        Some(MacpError::InvalidPayload)
    } else if !reg.contains_key(e.mode@) {
        Some(MacpError::UnknownMode)
    } else if empty_start(e, reg[e.mode@]) {
        None
    } else {
        let strict = reg[e.mode@].strict_session_start;
        match payload {
            MessagePayload::SessionStart(p) => if strict && !canonical_start(p) {
                Some(MacpError::InvalidPayload)
            } else if replay_ttl(p, strict) is None {
                Some(MacpError::InvalidTtl)
            } else {
                None
            },
            _ => Some(MacpError::InvalidPayload),
        }
    }
}

/// The session's start-payload fields are `p`'s, or empty.
pub open spec fn start_fields(s: Session, p: Option<SessionStartPayload>) -> bool {
    match p {
        Some(p) => {
            &&& s.participants@ == p.participants@
            &&& s.intent@ == p.intent@
            &&& s.mode_version@ == p.mode_version@
            &&& s.configuration_version@ == p.configuration_version@
            &&& s.policy_version@ == p.policy_version@
            &&& s.context@ == p.context@
            &&& s.roots@ == p.roots@
        },
        None => {
            &&& s.participants@.len() == 0
            &&& s.intent@.len() == 0
            &&& s.mode_version@.len() == 0
            &&& s.configuration_version@.len() == 0
            &&& s.policy_version@.len() == 0
            &&& s.context@.len() == 0
            &&& s.roots@.len() == 0
        },
    }
}

/// The start payload a replay binds: `None` for an empty one.
pub open spec fn replayed_start(
    reg: Map<Seq<char>, ModeRegistration>,
    e: LogEntry,
    payload: MessagePayload,
) -> Option<SessionStartPayload> {
    if empty_start(e, reg[e.mode@]) {
        None
    } else {
        Some(payload->SessionStart_0)
    }
}

/// `base` is the session a replay rebuilds from the start entry before its
/// mode sees it; `after` is what `on_session_start` (answering `rm`) and the
/// recording of the start's id leave. The time of receipt stands for the
/// start time, and the policy version is resolved in `policies` if given.
pub open spec fn begun(
    reg: Map<Seq<char>, ModeRegistration>,
    policies: Option<Map<Seq<char>, PolicyDefinition>>,
    session_id: Seq<char>,
    e: LogEntry,
    payload: MessagePayload,
    base: Session,
    after: Session,
    rm: Result<ModeResponse, MacpError>,
) -> bool {
    let p = replayed_start(reg, e, payload);
    let ttl = match p {
        Some(p) => replay_ttl(p, reg[e.mode@].strict_session_start)->0,
        None => LEGACY_REPLAY_TTL_MS,
    };
    &&& base.session_id@ == session_id
    &&& base.state == SessionState::Open
    &&& base.ttl_ms == ttl
    &&& base.started_at_unix_ms == e.received_at_ms
    &&& base.ttl_expiry == saturating_sum(e.received_at_ms, ttl)
    &&& base.resolution is None
    &&& base.mode@ == e.mode@
    &&& base.mode_state is Empty
    &&& start_fields(base, p)
    &&& base.seen_message_ids@.len() == 0
    &&& base.initiator_sender@ == e.sender@
    &&& base.participant_message_counts@ == Map::<Seq<char>, u64>::empty()
    &&& base.participant_last_seen@ == Map::<Seq<char>, i64>::empty()
    &&& if base.policy_version@.len() > 0 && policies is Some && policies->0.contains_key(
        base.policy_version@,
    ) {
        base.policy_definition matches Some(d) && same_policy(d, policies->0[base.policy_version@])
    } else {
        base.policy_definition is None
    }
    &&& exists|mid: Session| #[trigger] factory_started(reg[e.mode@].factory, base, mid, rm) && (rm is Ok
        ==> marked(mid, after, e.message_id@))
}

/// What the caller found at the log's last checkpoint.
pub enum Checkpoint {
    /// The log has no checkpoint.
    Absent,
    /// The checkpoint's payload did not decode as a session.
    Undecodable,
    /// The session the checkpoint holds.
    Restored(Session),
}

/// A restored session can be resumed: one that binds a policy version also
/// carries its definition.
pub open spec fn resumable(s: Session) -> bool {
    !(s.policy_version@.len() > 0 && s.policy_definition is None)
}

/// The outcome of replaying a log: from the last checkpoint where there is
/// a usable one, else from the first `SessionStart`, replaying every entry
/// after the log's first.
pub open spec fn replay_result(
    reg: Map<Seq<char>, ModeRegistration>,
    policies: Option<Map<Seq<char>, PolicyDefinition>>,
    session_id: Seq<char>,
    entries: Seq<LogEntry>,
    payloads: Seq<MessagePayload>,
    cp: Checkpoint,
    r: Result<Session, MacpError>,
) -> bool {
    if cp is Undecodable {
        r == Err::<Session, MacpError>(MacpError::InvalidPayload)
    } else if cp is Restored && resumable(cp->Restored_0) {
        let c = cp->Restored_0;
        if !reg.contains_key(c.mode@) {
            r == Err::<Session, MacpError>(MacpError::UnknownMode)
        } else {
            exists|c2: Session|
                #![trigger replays(reg[c.mode@].factory, session_id, entries, payloads, checkpoint_index(entries)->0 + 1, c2, r)]
                c2 == (Session { session_id: c2.session_id, ..c }) && c2.session_id@ == session_id
                    && replays(
                    reg[c.mode@].factory,
                    session_id,
                    entries,
                    payloads,
                    checkpoint_index(entries)->0 + 1,
                    c2,
                    r,
                )
        }
    } else {
        match start_index(entries) {
            None => r == Err::<Session, MacpError>(MacpError::InvalidPayload),
            Some(k) => {
                let e = entries[k];
                match begin_error(reg, e, payloads[k]) {
                    Some(x) => r == Err::<Session, MacpError>(x),
                    None => exists|base: Session, after: Session, rm: Result<ModeResponse, MacpError>|
                        #[trigger] begun(reg, policies, session_id, e, payloads[k], base, after, rm) && match rm {
                            Err(x) => r == Err::<Session, MacpError>(x),
                            Ok(_) => replays(reg[e.mode@].factory, session_id, entries, payloads, 1, after, r),
                        },
                }
            },
        }
    }
}

/// The position of the first accepted `SessionStart`.
pub fn find_session_start(entries: &Vec<LogEntry>) -> (r: Option<usize>)
    ensures
        r matches Some(i) ==> i < entries@.len(),
        match start_index(entries@) {
            Some(i) => r matches Some(x) && x as int == i,
            None => r is None,
        },
{
    let n = entries.len();
    let mut i: usize = 0;
    while i < n
        invariant
            n == entries@.len(),
            i <= n,
            start_index(entries@.take(i as int)) is None,
        decreases n - i,
    {
        assert(entries@.take(i + 1).drop_last() =~= entries@.take(i as int));
        if entries[i].entry_kind == EntryKind::Incoming && str_eq(entries[i].message_type.as_str(), "SessionStart") {
            proof {
                lemma_start_index_prefix(entries@, i as int);
            }
            return Some(i);
        }
        i = i + 1;
    }
    assert(entries@.take(n as int) =~= entries@);
    None
}

proof fn lemma_start_index_prefix(entries: Seq<LogEntry>, i: int)
    requires
        0 <= i < entries.len(),
        start_index(entries.take(i)) is None,
        is_session_start(entries[i]),
    ensures
        start_index(entries) == Some(i),
    decreases entries.len(),
{
    if entries.len() == i + 1 {
        assert(entries.drop_last() =~= entries.take(i));
    } else {
        assert(entries.drop_last().take(i) =~= entries.take(i));
        lemma_start_index_prefix(entries.drop_last(), i);
    }
}

/// The position of the last checkpoint.
pub fn last_checkpoint(entries: &Vec<LogEntry>) -> (r: Option<usize>)
    ensures
        r matches Some(i) ==> i < entries@.len(),
        match checkpoint_index(entries@) {
            Some(i) => r matches Some(x) && x as int == i,
            None => r is None,
        },
{
    let mut i: usize = entries.len();
    assert(entries@.take(i as int) =~= entries@);
    while i > 0
        invariant
            i <= entries@.len(),
            checkpoint_index(entries@) == checkpoint_index(entries@.take(i as int)),
        decreases i,
    {
        assert(entries@.take(i as int).drop_last() =~= entries@.take(i - 1));
        if entries[i - 1].entry_kind == EntryKind::Checkpoint {
            return Some(i - 1);
        }
        i = i - 1;
    }
    None
}

fn copy_strings(v: &Vec<String>) -> (r: Vec<String>)
    ensures
        r@ == v@,
{
    crate::mode_registry::clone_strings(v)
}

fn copy_roots(v: &Vec<Root>) -> (r: Vec<Root>)
    ensures
        r@ == v@,
{
    let n = v.len();
    let mut out: Vec<Root> = Vec::new();
    let mut i: usize = 0;
    while i < n
        invariant
            n == v@.len(),
            i <= n,
            out@ == v@.take(i as int),
        decreases n - i,
    {
        out.push(Root { uri: v[i].uri.clone(), name: v[i].name.clone() });
        assert(out@ =~= v@.take(i + 1));
        i = i + 1;
    }
    assert(out@ =~= v@);
    out
}

/// The envelope a logged entry stands for in a session of mode `session_mode`.
pub fn replay_env(session_mode: &str, session_id: &str, entry: &LogEntry) -> (env: Envelope)
    ensures
        replay_envelope(env, session_mode@, session_id@, *entry),
{
    Envelope {
        macp_version: if entry.macp_version.as_str().unicode_len() == 0 {
            owned("1.0")
        } else {
            entry.macp_version.clone()
        },
        mode: if entry.mode.as_str().unicode_len() == 0 {
            owned(session_mode)
        } else {
            entry.mode.clone()
        },
        message_type: entry.message_type.clone(),
        message_id: entry.message_id.clone(),
        session_id: owned(session_id),
        sender: entry.sender.clone(),
        // Use original envelope timestamp for replay determinism;
        // fall back to received_at_ms for legacy log entries.
        timestamp_unix_ms: if entry.timestamp_unix_ms != 0 {
            entry.timestamp_unix_ms
        } else {
            entry.received_at_ms
        },
        payload: copy_bytes(&entry.raw_payload),
    }
}

/// Replay a single log entry onto a session of the mode `mode` names.
pub fn replay_entry(
    session: &mut Session,
    session_id: &str,
    entry: &LogEntry,
    payload: MessagePayload,
    judgments: &PolicyJudgments,
    mode: &ModeRef,
) -> (r: Result<(), MacpError>)
    requires
        mode.registry@.contains_key(mode.name@),
    ensures
        replay_step(
            mode.registry@[mode.name@].factory,
            *old(session),
            *final(session),
            r,
            session_id@,
            *entry,
            payload,
            *judgments,
        ),
{
    reveal(replay_step);
    match entry.entry_kind {
        EntryKind::Incoming => {
            let replay_env = replay_env(session.mode.as_str(), session_id, entry);
            if session.state != SessionState::Open {
                if replay_env.message_id.as_str().unicode_len() != 0 {
                    session.mark_seen(replay_env.message_id.as_str());
                }
                return Ok(());
            }
            let ghost before = *session;
            let ghost f = mode.registry@[mode.name@].factory;
            if let Err(e) = mode.authorize_sender(session, &replay_env) {
                proof {
                    assert(replay_outcome(f, before, replay_env, before, Err(e), *session, Err(e), session_id@, *entry, payload, *judgments));
                }
                return Err(e);
            }
            let rm = mode.on_message(session, &replay_env, payload, judgments);
            let ghost mid = *session;
            match rm {
                Err(e) => {
                    proof {
                        assert(replay_outcome(f, before, replay_env, mid, rm, *session, Err(e), session_id@, *entry, payload, *judgments));
                    }
                    Err(e)
                },
                Ok(_) => {
                    if replay_env.message_id.as_str().unicode_len() != 0 {
                        session.mark_seen(replay_env.message_id.as_str());
                    }
                    proof {
                        assert(replay_outcome(f, before, replay_env, mid, rm, *session, Ok(()), session_id@, *entry, payload, *judgments));
                    }
                    Ok(())
                },
            }
        },
        EntryKind::Internal => {
            if str_eq(entry.message_type.as_str(), "TtlExpired") || str_eq(
                entry.message_type.as_str(),
                "SessionCancel",
            ) {
                session.state = SessionState::Expired;
            }
            Ok(())
        },
        EntryKind::Checkpoint => {
            // Skip intermediate checkpoints when replaying from an earlier one
            Ok(())
        },
    }
}

/// The policy definitions of the registry, if one is given.
pub open spec fn policy_view(pr: Option<&PolicyRegistry>) -> Option<Map<Seq<char>, PolicyDefinition>> {
    match pr {
        Some(p) => Some(p@),
        None => None,
    }
}

fn empty_start_payload() -> (p: SessionStartPayload)
    ensures
        p.participants@.len() == 0,
        p.intent@.len() == 0,
        p.mode_version@.len() == 0,
        p.configuration_version@.len() == 0,
        p.policy_version@.len() == 0,
        p.context@.len() == 0,
        p.roots@.len() == 0,
        p.ttl_ms == 0,
{
    SessionStartPayload {
        intent: String::new(),
        participants: Vec::new(),
        mode_version: String::new(),
        configuration_version: String::new(),
        policy_version: String::new(),
        ttl_ms: 0,
        context: Vec::new(),
        roots: Vec::new(),
    }
}

/// Rebuild the session that a log's `SessionStart` entry opens, before the
/// entries that follow it: the time of receipt stands for the start time,
/// and never the clock.
pub fn begin_replay(
    session_id: &str,
    start: &LogEntry,
    payload: &MessagePayload,
    registry: &ModeRegistry,
    policy_registry: Option<&PolicyRegistry>,
) -> (r: Result<Session, MacpError>)
    ensures
        match begin_error(registry@, *start, *payload) {
            Some(x) => r == Err::<Session, MacpError>(x),
            None => exists|base: Session, after: Session, rm: Result<ModeResponse, MacpError>|
                #[trigger] begun(registry@, policy_view(policy_registry), session_id@, *start, *payload, base, after, rm)
                    && match rm {
                    Err(x) => r == Err::<Session, MacpError>(x),
                    Ok(_) => r == Ok::<Session, MacpError>(after),
                },
        },
{
    // Determine mode: the entry-level field; legacy entries without one
    // cannot be replayed.
    let mode_name = start.mode.as_str();
    if mode_name.unicode_len() == 0 {
        return Err(MacpError::InvalidPayload);
    }
    let mode = match registry.get_mode(mode_name) {
        Some(m) => m,
        None => {
            return Err(MacpError::UnknownMode);
        },
    };
    let require_complete_start = registry.requires_strict_session_start(mode_name);
    let empty = empty_start_payload();
    let start_payload: &SessionStartPayload = if start.raw_payload.len() == 0 && !require_complete_start {
        &empty
    } else {
        match parse_session_start_payload(payload) {
            Ok(p) => p,
            Err(e) => {
                return Err(e);
            },
        }
    };
    if require_complete_start {
        if let Err(e) = validate_canonical_session_start_payload(start_payload) {
            return Err(e);
        }
    }
    let ttl_ms = if !require_complete_start && start_payload.ttl_ms == 0 {
        // Legacy experimental modes may have 0 ttl_ms
        LEGACY_REPLAY_TTL_MS
    } else {
        match extract_ttl_ms(start_payload) {
            Ok(t) => t,
            Err(e) => {
                return Err(e);
            },
        }
    };
    let started_at_unix_ms = start.received_at_ms;
    let ttl_expiry = match started_at_unix_ms.checked_add(ttl_ms) {
        Some(t) => t,
        None => if ttl_ms > 0 {
            i64::MAX
        } else {
            i64::MIN
        },
    };
    let env = replay_env(mode_name, session_id, start);
    let policy_definition = if start_payload.policy_version.as_str().unicode_len() != 0 {
        match policy_registry {
            Some(pr) => match pr.resolve(start_payload.policy_version.as_str()) {
                Ok(d) => Some(d),
                Err(_) => None,
            },
            None => None,
        }
    } else {
        None
    };
    let mut session = Session {
        session_id: owned(session_id),
        state: SessionState::Open,
        ttl_expiry,
        ttl_ms,
        started_at_unix_ms,
        resolution: None,
        mode: owned(mode_name),
        mode_state: ModeState::Empty,
        participants: copy_strings(&start_payload.participants),
        seen_message_ids: Vec::new(),
        intent: start_payload.intent.clone(),
        mode_version: start_payload.mode_version.clone(),
        configuration_version: start_payload.configuration_version.clone(),
        policy_version: start_payload.policy_version.clone(),
        context: copy_bytes(&start_payload.context),
        roots: copy_roots(&start_payload.roots),
        initiator_sender: start.sender.clone(),
        participant_message_counts: KeyedVec::new(),
        participant_last_seen: KeyedVec::new(),
        policy_definition,
    };
    let ghost base = session;
    let rm = mode.on_session_start(&mut session, &env);
    let ghost mid = session;
    match rm {
        Err(e) => {
            proof {
                assert(begun(registry@, policy_view(policy_registry), session_id@, *start, *payload, base, mid, rm));
            }
            Err(e)
        },
        Ok(_) => {
            session.mark_seen(start.message_id.as_str());
            proof {
                assert(begun(registry@, policy_view(policy_registry), session_id@, *start, *payload, base, session, rm));
            }
            Ok(session)
        },
    }
}

proof fn lemma_replays_done(
    f: ModeFactory,
    session_id: Seq<char>,
    entries: Seq<LogEntry>,
    all: Seq<MessagePayload>,
    s: Session,
)
    ensures
        replays(f, session_id, entries, all, entries.len() as int, s, Ok(s)),
{
    reveal(replays);
}

proof fn lemma_replays_step(
    f: ModeFactory,
    session_id: Seq<char>,
    entries: Seq<LogEntry>,
    all: Seq<MessagePayload>,
    i: int,
    before: Session,
    after: Session,
    r: Result<(), MacpError>,
    j: PolicyJudgments,
)
    requires
        0 <= i < entries.len(),
        replay_step(f, before, after, r, session_id, entries[i], all[i], j),
    ensures
        r matches Err(e) ==> replays(f, session_id, entries, all, i, before, Err(e)),
        r is Ok ==> forall|out: Result<Session, MacpError>|
            #[trigger] replays(f, session_id, entries, all, i + 1, after, out) ==> replays(
                f,
                session_id,
                entries,
                all,
                i,
                before,
                out,
            ),
{
    reveal(replays);
}

fn replay_from<J: Fn(&Session) -> PolicyJudgments>(
    start: Session,
    session_id: &str,
    entries: &Vec<LogEntry>,
    payloads: Vec<MessagePayload>,
    from: usize,
    mode: &ModeRef,
    judge: &J,
    Ghost(all): Ghost<Seq<MessagePayload>>,
) -> (r: Result<Session, MacpError>)
    requires
        mode.registry@.contains_key(mode.name@),
        from <= entries@.len(),
        all.len() == entries@.len(),
        payloads@ == all.subrange(from as int, all.len() as int),
        forall|s: &Session| #[trigger] judge.requires((s,)),
    ensures
        replays(mode.registry@[mode.name@].factory, session_id@, entries@, all, from as int, start, r),
{
    let ghost f = mode.registry@[mode.name@].factory;
    let ghost s0 = start;
    let n = entries.len();
    let mut session = start;
    let mut payloads = payloads;
    let mut i: usize = from;
    while i < n
        invariant
            n == entries@.len(),
            from <= i <= n,
            all.len() == n,
            payloads@ == all.subrange(i as int, n as int),
            mode.registry@.contains_key(mode.name@),
            f == mode.registry@[mode.name@].factory,
            s0 == start,
            forall|s: &Session| #[trigger] judge.requires((s,)),
            forall|out: Result<Session, MacpError>|
                #[trigger] replays(f, session_id@, entries@, all, i as int, session, out) ==> replays(
                    f,
                    session_id@,
                    entries@,
                    all,
                    from as int,
                    s0,
                    out,
                ),
        decreases n - i,
    {
        let payload = payloads.remove(0);
        let judgments = judge(&session);
        let ghost before = session;
        let step = replay_entry(&mut session, session_id, &entries[i], payload, &judgments, mode);
        proof {
            assert(payload == all[i as int]);
            lemma_replays_step(f, session_id@, entries@, all, i as int, before, session, step, judgments);
            assert(payloads@ =~= all.subrange(i + 1, n as int));
        }
        if let Err(e) = step {
            proof {
                assert(replays(f, session_id@, entries@, all, i as int, before, Err(e)));
            }
            return Err(e);
        }
        i = i + 1;
    }
    proof {
        lemma_replays_done(f, session_id@, entries@, all, session);
    }
    Ok(session)
}

/// Rebuild a session from its log. With a usable checkpoint, replay starts
/// from the last checkpoint (its serialized session) and replays only the
/// entries after it; otherwise replay starts from the `SessionStart` and
/// replays every entry after the log's first. `payloads[i]` is entry `i`'s
/// payload as decoded, and `judge` works out the bound policy's comparisons
/// on the session as replay reaches each entry.
pub fn replay_session<J: Fn(&Session) -> PolicyJudgments>(
    session_id: &str,
    log_entries: &Vec<LogEntry>,
    payloads: Vec<MessagePayload>,
    checkpoint: Checkpoint,
    registry: &ModeRegistry,
    policy_registry: Option<&PolicyRegistry>,
    judge: &J,
) -> (r: Result<Session, MacpError>)
    requires
        payloads@.len() == log_entries@.len(),
        (checkpoint is Absent) <==> checkpoint_index(log_entries@) is None,
        forall|s: &Session| #[trigger] judge.requires((s,)),
    ensures
        replay_result(
            registry@,
            policy_view(policy_registry),
            session_id@,
            log_entries@,
            payloads@,
            checkpoint,
            r,
        ),
{
    let ghost all = payloads@;
    let ghost cp = checkpoint;
    match checkpoint {
        Checkpoint::Undecodable => {
            return Err(MacpError::InvalidPayload);
        },
        Checkpoint::Restored(restored) => {
            let mut session = restored;
            session.session_id = owned(session_id);
            // Policy definitions must be serialized in checkpoints; one that
            // binds a policy version without its definition cannot be trusted
            // for deterministic replay: fall back to a full replay.
            if !(session.policy_version.as_str().unicode_len() != 0 && session.policy_definition.is_none()) {
                let mode = match registry.get_mode(session.mode.as_str()) {
                    Some(m) => m,
                    None => {
                        return Err(MacpError::UnknownMode);
                    },
                };
                let n = log_entries.len();
                let idx = match last_checkpoint(log_entries) {
                    Some(idx) => idx,
                    None => {
                        return Err(MacpError::InvalidPayload);
                    },
                };
                let mut head = payloads;
                let tail = head.split_off(idx + 1);
                let ghost c2 = session;
                let r = replay_from(session, session_id, log_entries, tail, idx + 1, &mode, judge, Ghost(all));
                proof {
                    assert(c2 == (Session { session_id: c2.session_id, ..cp->Restored_0 }));
                    assert(mode.registry@[mode.name@].factory == registry@[cp->Restored_0.mode@].factory);
                    assert(idx + 1 == checkpoint_index(log_entries@)->0 + 1);
                    assert(replays(
                        registry@[cp->Restored_0.mode@].factory,
                        session_id@,
                        log_entries@,
                        all,
                        checkpoint_index(log_entries@)->0 + 1,
                        c2,
                        r,
                    ));
                }
                return r;
            }
        },
        Checkpoint::Absent => {},
    }
    let k = match find_session_start(log_entries) {
        Some(k) => k,
        None => {
            return Err(MacpError::InvalidPayload);
        },
    };
    let ghost e = log_entries@[k as int];
    let ghost p = payloads@[k as int];
    let session = match begin_replay(session_id, &log_entries[k], &payloads[k], registry, policy_registry) {
        Ok(s) => s,
        Err(e) => {
            return Err(e);
        },
    };
    let mode = match registry.get_mode(log_entries[k].mode.as_str()) {
        Some(m) => m,
        None => {
            return Err(MacpError::UnknownMode);
        },
    };
    let mut head = payloads;
    let tail = head.split_off(1);
    let ghost s1 = session;
    let r = replay_from(session, session_id, log_entries, tail, 1, &mode, judge, Ghost(all));
    proof {
        let (base, after, rm) = choose|base: Session, after: Session, rm: Result<ModeResponse, MacpError>|
            #[trigger] begun(registry@, policy_view(policy_registry), session_id@, e, p, base, after, rm) && match rm {
                Err(x) => Err::<Session, MacpError>(x) == Ok::<Session, MacpError>(s1),
                Ok(_) => Ok::<Session, MacpError>(s1) == Ok::<Session, MacpError>(after),
            };
        assert(begun(registry@, policy_view(policy_registry), session_id@, e, p, base, after, rm) && match rm {
            Err(x) => r == Err::<Session, MacpError>(x),
            Ok(_) => replays(registry@[e.mode@].factory, session_id@, log_entries@, all, 1, after, r),
        });
    }
    r
}

} // verus!
