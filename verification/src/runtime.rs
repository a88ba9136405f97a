//! The coordination kernel: sessions by id, and the decisions taken on
//! SessionStart, session messages, signals, cancellation and expiry.
//!
//! Durable storage, the log cache and broadcasting are the caller's: each
//! request is decided here (`plan_*`), the caller writes what must be durable,
//! and then applies the decision here (`commit_*`, `apply_*`, `expire_*`).
use vstd::prelude::*;
use crate::error::MacpError;
use crate::keyed::{keys_unique, lemma_push_map, seq_has_key, seq_to_map, KeyedVec};
use crate::log_store::{copy_bytes, EntryKind, LogEntry};
use crate::metrics::{bumped, metrics_of, Counter, RuntimeMetrics};
use crate::mode::{Mode, ModeResponse, PolicyJudgments};
use crate::mode::standard_mode_name_seq;
use crate::mode_registry::{
    all_names, described_among, described_regs, describes, descriptor_error, extension_registration,
    factory_error, factory_outcome_at, factory_sender_allowed, factory_started, lemma_outcome_matches_error,
    promoted_names, standards_among, ModeFactory, ModeRegistry,
};
use crate::ordered::OrderedMap;
use crate::pb::{Envelope, MessagePayload, ModeDescriptor, Root, SessionStartPayload};
use crate::policy::registry::{definition_error, listed, PolicyRegistry};
use crate::policy::{same_policy, PolicyDefinition};
use crate::session::{
    canonical_start, extract_ttl_ms, has_seen, session_id_acceptable, ttl_for,
    validate_canonical_session_start_payload, validate_session_id_for_acceptance, ModeState, Session,
    SessionState,
};
use crate::text::{is_blank, owned, str_eq, str_is_blank, texts};

verus! {

#[derive(Debug, Clone, Copy, PartialEq, Eq, Structural)]
pub struct ProcessResult {
    pub session_state: SessionState,
    pub duplicate: bool,
}

/// How a request is processed, by its message type.
#[derive(Debug, Clone, Copy, PartialEq, Eq, Structural)]
pub enum RequestKind {
    /// Opens a session.
    SessionStart,
    /// An ambient `Signal` or `Progress`: checked, never bound to a session.
    Signal,
    /// Any other message, bound to an open session.
    SessionMessage,
}

/// The request kind of a message type.
pub open spec fn request_kind_of(message_type: Seq<char>) -> RequestKind {
    if message_type == "SessionStart"@ {
        RequestKind::SessionStart
    } else if message_type == "Signal"@ || message_type == "Progress"@ {
        RequestKind::Signal
    } else {
        RequestKind::SessionMessage
    }
}

/// The request kind of a message type.
pub fn request_kind(message_type: &str) -> (r: RequestKind)
    ensures
        r == request_kind_of(message_type@),
{
    if str_eq(message_type, "SessionStart") {
        RequestKind::SessionStart
    } else if str_eq(message_type, "Signal") || str_eq(message_type, "Progress") {
        RequestKind::Signal
    } else {
        RequestKind::SessionMessage
    }
}

/// What to do with a SessionStart.
pub enum StartPlan {
    /// The message was already accepted: acknowledge it as a duplicate.
    Duplicate(SessionState),
    /// Write the start to the log, then commit this session.
    Create(Session),
}

/// What to do with a session message.
#[derive(Debug, Clone, Copy, PartialEq, Eq, Structural)]
pub enum MessagePlan {
    /// The message was already accepted: acknowledge it as a duplicate.
    Duplicate(SessionState),
    /// The session's TTL has passed: log the expiry, expire the session and
    /// refuse the message with `TtlExpired`.
    Expire,
    /// Write the message to the log, then apply it.
    Accept,
}

/// What to do with a cancellation.
#[derive(Debug, Clone, Copy, PartialEq, Eq, Structural)]
pub enum CancelPlan {
    /// The session is already resolved or expired: report its state.
    Terminal(SessionState),
    /// The session's TTL has passed: log the expiry and expire it, then
    /// report it expired.
    ExpireFirst,
    /// Log the cancellation, then cancel the session.
    Cancel,
}

/// `a + b`, held at the bounds of `i64`.
pub open spec fn saturating_sum(a: i64, b: i64) -> i64 {
    if a + b > i64::MAX {
        i64::MAX
    } else if a + b < i64::MIN {
        i64::MIN
    } else {
        (a + b) as i64
    }
}

/// The policy version a start binds: `policy.default` when none is given.
pub open spec fn effective_policy_version(p: SessionStartPayload) -> Seq<char> {
    if p.policy_version@.len() == 0 {
        "policy.default"@
    } else {
        p.policy_version@
    }
}

/// The start names a mode version other than the registered descriptor's.
pub open spec fn version_mismatch(descriptor_version: Option<Seq<char>>, p: SessionStartPayload) -> bool {
    descriptor_version matches Some(v) && p.mode_version@.len() > 0 && p.mode_version@ != v
}

/// Sessions started by `sender` that are open and within their TTL at `now`.
pub open spec fn open_count(s: Seq<(String, Session)>, sender: Seq<char>, now: i64) -> nat
    decreases s.len(),
{
    if s.len() == 0 {
        0
    } else {
        let x = s.last().1;
        open_count(s.drop_last(), sender, now) + if x.initiator_sender@ == sender && x.state
            == SessionState::Open && now <= x.ttl_expiry {
            1nat
        } else {
            0nat
        }
    }
}

/// The session a SessionStart creates before its mode sees it.
pub open spec fn fresh_session(
    s: Session,
    env: Envelope,
    p: SessionStartPayload,
    ttl_ms: i64,
    policy_version: Seq<char>,
    policy: PolicyDefinition,
    now: i64,
) -> bool {
    &&& s.session_id == env.session_id
    &&& s.state == SessionState::Open
    &&& s.ttl_expiry == saturating_sum(
        if env.timestamp_unix_ms > 0 {
            env.timestamp_unix_ms
        } else {
            now
        },
        ttl_ms,
    )
    &&& s.ttl_ms == ttl_ms
    &&& s.started_at_unix_ms == now
    &&& s.resolution is None
    &&& s.mode == env.mode
    &&& s.mode_state is Empty
    &&& s.participants@ == p.participants@
    &&& s.seen_message_ids@.len() == 1 && s.seen_message_ids@[0] == env.message_id
    &&& s.intent == p.intent
    &&& s.mode_version == p.mode_version
    &&& s.configuration_version == p.configuration_version
    &&& s.policy_version@ == policy_version
    &&& s.context@ == p.context@
    &&& s.roots@ == p.roots@
    &&& s.initiator_sender == env.sender
    &&& s.participant_message_counts@ == Map::<Seq<char>, u64>::empty()
    &&& s.participant_last_seen@ == Map::<Seq<char>, i64>::empty()
    &&& s.policy_definition matches Some(d) && same_policy(d, policy)
}

/// How a SessionStart is decided.
pub ghost enum StartDecision {
    Refused(MacpError),
    Duplicate(SessionState),
    Create { factory: ModeFactory, ttl_ms: i64, policy_version: Seq<char>, policy: PolicyDefinition },
}

/// The decision on a SessionStart, checked in order: the mode and session id,
/// the mode's registration, the start payload (strictly for standards-track
/// modes and built-in extensions), the mode version, the TTL, an existing
/// session with that id, the initiator's open-session limit, and the bound
/// policy.
pub open spec fn start_decision(
    rt: Runtime,
    env: Envelope,
    payload: MessagePayload,
    max_open_sessions: Option<usize>,
    now: i64,
) -> StartDecision {
    let mode = env.mode@;
    if is_blank(mode) {
        StartDecision::Refused(MacpError::InvalidEnvelope)
    } else if !session_id_acceptable(env.session_id@) {
        StartDecision::Refused(MacpError::InvalidSessionId)
    } else if !rt.mode_registry@.contains_key(mode) {
        StartDecision::Refused(MacpError::UnknownMode)
    } else {
        match payload {
            MessagePayload::SessionStart(p) => {
                let reg = rt.mode_registry@[mode];
                let descriptor_version = match reg.descriptor {
                    Some(d) => Some(d.mode_version@),
                    None => None,
                };
                if reg.strict_session_start && !canonical_start(p) {
                    StartDecision::Refused(MacpError::InvalidPayload)
                } else if version_mismatch(descriptor_version, p) {
                    StartDecision::Refused(MacpError::InvalidEnvelope)
                } else {
                    match ttl_for(p.ttl_ms) {
                        None => StartDecision::Refused(MacpError::InvalidTtl),
                        Some(ttl) => if rt.sessions@.contains_key(env.session_id@) {
                            let existing = rt.sessions@[env.session_id@];
                            if has_seen(existing, env.message_id@) {
                                StartDecision::Duplicate(existing.state)
                            } else {
                                StartDecision::Refused(MacpError::SessionAlreadyExists)
                            }
                        } else if max_open_sessions matches Some(m) && open_count(
                            rt.sessions.entries_seq(),
                            env.sender@,
                            now,
                        ) >= m {
                            StartDecision::Refused(MacpError::RateLimited)
                        } else {
                            let version = effective_policy_version(p);
                            if !rt.policy_registry@.contains_key(version) {
                                StartDecision::Refused(MacpError::UnknownPolicyVersion)
                            } else {
                                let policy = rt.policy_registry@[version];
                                if policy.mode@ != "*"@ && policy.mode@ != mode {
                                    StartDecision::Refused(MacpError::InvalidPolicyDefinition)
                                } else {
                                    StartDecision::Create {
                                        factory: reg.factory,
                                        ttl_ms: ttl,
                                        policy_version: version,
                                        policy,
                                    }
                                }
                            }
                        },
                    }
                }
            },
            _ => StartDecision::Refused(MacpError::InvalidPayload),
        }
    }
}

/// `after` is `base` as the mode's `on_session_start` left it, answering `rm`.
pub open spec fn started_by_mode(
    factory: ModeFactory,
    env: Envelope,
    p: SessionStartPayload,
    ttl_ms: i64,
    policy_version: Seq<char>,
    policy: PolicyDefinition,
    now: i64,
    base: Session,
    after: Session,
    rm: Result<ModeResponse, MacpError>,
) -> bool {
    fresh_session(base, env, p, ttl_ms, policy_version, policy, now) && factory_started(
        factory,
        base,
        after,
        rm,
    )
}

/// The decision on a session message, checked in order:
/// the session exists, the message is new, the envelope's mode is the
/// session's, the TTL has not passed, the session is open, its mode is
/// registered, the sender is authorized, and the mode accepts the message.
pub open spec fn message_decision(
    rt: Runtime,
    env: Envelope,
    payload: MessagePayload,
    j: PolicyJudgments,
    now: i64,
) -> Result<MessagePlan, MacpError> {
    if !rt.sessions@.contains_key(env.session_id@) {
        Err(MacpError::UnknownSession)
    } else {
        let s = rt.sessions@[env.session_id@];
        if has_seen(s, env.message_id@) {
            Ok(MessagePlan::Duplicate(s.state))
        } else if env.mode@ != s.mode@ {
            Err(MacpError::InvalidEnvelope)
        } else if s.state == SessionState::Open && now > s.ttl_expiry {
            Ok(MessagePlan::Expire)
        } else if s.state != SessionState::Open {
            Err(MacpError::SessionNotOpen)
        } else if !rt.mode_registry@.contains_key(s.mode@) {
            Err(MacpError::UnknownMode)
        } else {
            let f = rt.mode_registry@[s.mode@].factory;
            if !factory_sender_allowed(f, s, env) {
                Err(MacpError::Forbidden)
            } else {
                match factory_error(f, s, env, payload, j, now) {
                    Some(e) => Err(e),
                    None => Ok(MessagePlan::Accept),
                }
            }
        }
    }
}

/// `after` is `mid` with the message id recorded and the sender's activity
/// counted at `now`.
pub open spec fn recorded(mid: Session, after: Session, env: Envelope, now: i64) -> bool {
    &&& after == (Session {
        seen_message_ids: after.seen_message_ids,
        participant_message_counts: after.participant_message_counts,
        participant_last_seen: after.participant_last_seen,
        ..mid
    })
    &&& has_seen(after, env.message_id@)
    &&& forall|m: Seq<char>| has_seen(mid, m) ==> has_seen(after, m)
    &&& texts(after.seen_message_ids@) == if has_seen(mid, env.message_id@) {
        texts(mid.seen_message_ids@)
    } else {
        texts(mid.seen_message_ids@).push(env.message_id@)
    }
    &&& after.participant_last_seen@ == mid.participant_last_seen@.insert(env.sender@, now)
    &&& after.participant_message_counts@.dom() == mid.participant_message_counts@.dom().insert(env.sender@)
}

/// The counters after accepting a message of mode `mode`.
pub open spec fn accepted_metrics(
    m: Map<Seq<char>, crate::metrics::ModeMetrics>,
    mode: Seq<char>,
    commitment: bool,
    resolved: bool,
) -> Map<Seq<char>, crate::metrics::ModeMetrics> {
    let m1 = m.insert(mode, bumped(metrics_of(m, mode), Counter::MessagesAccepted));
    let m2 = if commitment {
        m1.insert(mode, bumped(metrics_of(m1, mode), Counter::CommitmentsAccepted))
    } else {
        m1
    };
    if resolved {
        m2.insert(mode, bumped(metrics_of(m2, mode), Counter::SessionsResolved))
    } else {
        m2
    }
}

/// The sessions whose TTL has passed at `now` while they are still open, in id order.
pub open spec fn expired_ids(s: Seq<(String, Session)>, now: i64) -> Seq<Seq<char>>
    decreases s.len(),
{
    if s.len() == 0 {
        seq![]
    } else {
        let rest = expired_ids(s.drop_last(), now);
        if s.last().1.state == SessionState::Open && now > s.last().1.ttl_expiry {
            rest.push(s.last().0@)
        } else {
            rest
        }
    }
}

/// The session is resolved or expired and was started before `cutoff`.
pub open spec fn is_stale(x: Session, cutoff: int) -> bool {
    (x.state == SessionState::Resolved || x.state == SessionState::Expired) && x.started_at_unix_ms < cutoff
}

/// Terminal sessions started before `cutoff`, in id order.
pub open spec fn stale_ids(s: Seq<(String, Session)>, cutoff: int) -> Seq<Seq<char>>
    decreases s.len(),
{
    if s.len() == 0 {
        seq![]
    } else {
        let rest = stale_ids(s.drop_last(), cutoff);
        if is_stale(s.last().1, cutoff) {
            rest.push(s.last().0@)
        } else {
            rest
        }
    }
}

/// Over entries with distinct ids, the stale ids are exactly the ids of the
/// stale sessions of the map the entries stand for.
pub proof fn lemma_stale_ids_members(s: Seq<(String, Session)>, cutoff: int)
    requires
        keys_unique(s),
    ensures
        forall|k: Seq<char>|
            stale_ids(s, cutoff).contains(k) <==> (seq_to_map(s).contains_key(k) && is_stale(
                seq_to_map(s)[k],
                cutoff,
            )),
    decreases s.len(),
{
    if s.len() == 0 {
        assert forall|k: Seq<char>| !stale_ids(s, cutoff).contains(k) && !seq_to_map(s).contains_key(k) by {}
    } else {
        let t = s.drop_last();
        let last = s.last();
        assert(keys_unique(t)) by {
            assert forall|i: int, j: int|
                0 <= i < t.len() && 0 <= j < t.len() && i != j implies (#[trigger] t[i]).0@ != (
                #[trigger] t[j]).0@ by {
                assert(t[i] == s[i] && t[j] == s[j]);
            }
        }
        assert(!seq_has_key(t, last.0@)) by {
            if seq_has_key(t, last.0@) {
                let i = choose|i: int| 0 <= i < t.len() && (#[trigger] t[i]).0@ == last.0@;
                assert(t[i] == s[i]);
                assert(s[s.len() - 1] == last);
            }
        }
        lemma_push_map(t, last.0, last.1);
        assert(t.push((last.0, last.1)) =~= s);
        lemma_stale_ids_members(t, cutoff);
        let r = stale_ids(t, cutoff);
        assert forall|k: Seq<char>|
            stale_ids(s, cutoff).contains(k) <==> (seq_to_map(s).contains_key(k) && is_stale(
                seq_to_map(s)[k],
                cutoff,
            )) by {
            if is_stale(last.1, cutoff) {
                assert(stale_ids(s, cutoff) == r.push(last.0@));
                if r.contains(k) {
                    let i = choose|i: int| 0 <= i < r.len() && r[i] == k;
                    assert(r.push(last.0@)[i] == k);
                }
                if r.push(last.0@).contains(k) && k != last.0@ {
                    let i = choose|i: int| 0 <= i < r.len() + 1 && r.push(last.0@)[i] == k;
                    assert(i < r.len());
                    assert(r[i] == k);
                }
                if k == last.0@ {
                    assert(r.push(last.0@)[r.len() as int] == k);
                }
            } else {
                assert(stale_ids(s, cutoff) == r);
                if k == last.0@ && r.contains(k) {
                    assert(seq_to_map(t).contains_key(k));
                }
            }
        }
    }
}

/// Why a Signal or Progress envelope is refused, or `None`: a Signal is
/// ambient, so it names no session and no mode; a Signal with a payload must
/// carry a non-blank signal type, and a Progress payload must decode.
pub open spec fn signal_rejection(env: Envelope, payload: MessagePayload) -> Option<MacpError> {
    if env.message_type@ == "Signal"@ && (env.session_id@.len() > 0 || env.mode@.len() > 0) {
        Some(MacpError::InvalidEnvelope)
    } else if env.message_type@ == "Signal"@ && env.payload@.len() > 0 {
        match payload {
            MessagePayload::Signal(p) => if is_blank(p.signal_type@) {
                Some(MacpError::InvalidPayload)
            } else {
                None
            },
            _ => Some(MacpError::InvalidPayload),
        }
    } else if env.message_type@ == "Progress"@ && env.payload@.len() > 0 {
        match payload {
            MessagePayload::Progress => None,
            _ => Some(MacpError::InvalidPayload),
        }
    } else {
        None
    }
}

fn copy_strings(v: &Vec<String>) -> (r: Vec<String>)
    ensures
        r@ == v@,
{
    crate::mode_registry::clone_strings(v)
}

fn copy_roots(v: &Vec<Root>) -> (r: Vec<Root>)
    ensures
        r@ == v@,
{
    let n = v.len();
    let mut out: Vec<Root> = Vec::new();
    let mut i: usize = 0;
    while i < n
        invariant
            n == v@.len(),
            i <= n,
            out@ == v@.take(i as int),
        decreases n - i,
    {
        out.push(Root { uri: v[i].uri.clone(), name: v[i].name.clone() });
        assert(out@ =~= v@.take(i + 1));
        i = i + 1;
    }
    assert(out@ =~= v@);
    out
}

/// The log entry of an accepted envelope, received at `received_at_ms`.
pub fn make_incoming_entry(env: &Envelope, received_at_ms: i64) -> (r: LogEntry)
    ensures
        r.message_id@ == env.message_id@,
        r.received_at_ms == received_at_ms,
        r.sender@ == env.sender@,
        r.message_type@ == env.message_type@,
        r.raw_payload@ == env.payload@,
        r.entry_kind == EntryKind::Incoming,
        r.session_id@ == env.session_id@,
        r.mode@ == env.mode@,
        r.macp_version@ == env.macp_version@,
        r.timestamp_unix_ms == env.timestamp_unix_ms,
{
    LogEntry {
        message_id: env.message_id.clone(),
        received_at_ms,
        sender: env.sender.clone(),
        message_type: env.message_type.clone(),
        raw_payload: copy_bytes(&env.payload),
        entry_kind: EntryKind::Incoming,
        session_id: env.session_id.clone(),
        mode: env.mode.clone(),
        macp_version: env.macp_version.clone(),
        timestamp_unix_ms: env.timestamp_unix_ms,
    }
}

/// The log entry of an event of the runtime itself (`TtlExpired`,
/// `SessionCancel`) at `now`.
pub fn make_internal_entry(message_type: &str, payload: &Vec<u8>, session_id: &str, mode: &str, now: i64) -> (r:
    LogEntry)
    ensures
        r.message_id@.len() == 0,
        r.received_at_ms == now,
        r.sender@ == "_runtime"@,
        r.message_type@ == message_type@,
        r.raw_payload@ == payload@,
        r.entry_kind == EntryKind::Internal,
        r.session_id@ == session_id@,
        r.mode@ == mode@,
        r.macp_version@ == "1.0"@,
        r.timestamp_unix_ms == now,
{
    LogEntry {
        message_id: String::new(),
        received_at_ms: now,
        sender: owned("_runtime"),
        message_type: owned(message_type),
        raw_payload: copy_bytes(payload),
        entry_kind: EntryKind::Internal,
        session_id: owned(session_id),
        mode: owned(mode),
        macp_version: owned("1.0"),
        timestamp_unix_ms: now,
    }
}

/// The log entry of a checkpoint holding the serialized session, at `now`.
pub fn make_checkpoint_entry(session_id: &str, mode: &str, raw_payload: Vec<u8>, now: i64) -> (r: LogEntry)
    ensures
        r.message_id@.len() == 0,
        r.received_at_ms == now,
        r.sender@ == "_runtime"@,
        r.message_type@ == "Checkpoint"@,
        r.raw_payload@ == raw_payload@,
        r.entry_kind == EntryKind::Checkpoint,
        r.session_id@ == session_id@,
        r.mode@ == mode@,
        r.macp_version@.len() == 0,
        r.timestamp_unix_ms == now,
{
    LogEntry {
        message_id: String::new(),
        received_at_ms: now,
        sender: owned("_runtime"),
        message_type: owned("Checkpoint"),
        raw_payload,
        entry_kind: EntryKind::Checkpoint,
        session_id: owned(session_id),
        mode: owned(mode),
        macp_version: String::new(),
        timestamp_unix_ms: now,
    }
}

/// Whether a log of `log_len` entries is due a checkpoint: at each multiple
/// of a non-zero interval, never before the first interval is reached.
pub fn checkpoint_due(log_len: usize, checkpoint_interval: usize) -> (r: bool)
    ensures
        r == (checkpoint_interval != 0 && log_len >= checkpoint_interval && log_len % checkpoint_interval == 0),
{
    if checkpoint_interval == 0 {
        return false;
    }
    // Only checkpoint at interval boundaries, and not on the first entry.
    !(log_len < checkpoint_interval || log_len % checkpoint_interval != 0)
}

/// The coordination kernel's state.
pub struct Runtime {
    /// Sessions by id.
    pub sessions: OrderedMap<Session>,
    pub mode_registry: ModeRegistry,
    pub policy_registry: PolicyRegistry,
    pub metrics: RuntimeMetrics,
}

impl Runtime {
    /// A kernel with no sessions, the default modes and the default policy.
    pub fn new() -> (r: Self)
        ensures
            r.sessions@ == Map::<Seq<char>, Session>::empty(),
            crate::mode_registry::is_default_registry(r.mode_registry@),
            r.policy_registry@.dom() =~= set!["policy.default"@],
            r.metrics@ == Map::<Seq<char>, crate::metrics::ModeMetrics>::empty(),
    {
        Self::with_registries(ModeRegistry::build_default(), PolicyRegistry::new())
    }

    /// A kernel with no sessions and the given registries.
    pub fn with_registries(mode_registry: ModeRegistry, policy_registry: PolicyRegistry) -> (r: Self)
        ensures
            r.sessions@ == Map::<Seq<char>, Session>::empty(),
            r.mode_registry == mode_registry,
            r.policy_registry == policy_registry,
            r.metrics@ == Map::<Seq<char>, crate::metrics::ModeMetrics>::empty(),
    {
        Runtime {
            sessions: OrderedMap::new(),
            mode_registry,
            policy_registry,
            metrics: RuntimeMetrics::new(),
        }
    }

    /// A kernel with no sessions, the given mode registry and the default policy.
    pub fn with_mode_registry(mode_registry: ModeRegistry) -> (r: Self)
        ensures
            r.sessions@ == Map::<Seq<char>, Session>::empty(),
            r.mode_registry == mode_registry,
            r.policy_registry@.dom() =~= set!["policy.default"@],
            r.metrics@ == Map::<Seq<char>, crate::metrics::ModeMetrics>::empty(),
    {
        Self::with_registries(mode_registry, PolicyRegistry::new())
    }

    /// All mode names the kernel can handle, sorted.
    pub fn registered_mode_names(&self) -> (r: Vec<String>)
        ensures
            crate::text::texts(r@) == all_names(self.mode_registry.registrations()),
    {
        self.mode_registry.all_mode_names()
    }

    /// Descriptors of the standards-track modes.
    pub fn standard_mode_descriptors(&self) -> (r: Vec<ModeDescriptor>)
        ensures
            ({
                let regs = self.mode_registry.registrations();
                let expected = described_among(
                    self.mode_registry@,
                    standards_among(self.mode_registry@, standard_mode_name_seq()) + promoted_names(
                        regs,
                    ),
                );
                &&& r@.len() == expected.len()
                &&& forall|i: int| 0 <= i < r@.len() ==> describes(#[trigger] r@[i], expected[i])
            }),
    {
        self.mode_registry.standard_mode_descriptors()
    }

    /// Descriptors of the extension modes.
    pub fn extension_mode_descriptors(&self) -> (r: Vec<ModeDescriptor>)
        ensures
            r@.len() == described_regs(self.mode_registry.registrations(), true).len(),
            forall|i: int|
                0 <= i < r@.len() ==> describes(
                    #[trigger] r@[i],
                    described_regs(self.mode_registry.registrations(), true)[i],
                ),
    {
        self.mode_registry.extension_mode_descriptors()
    }

    /// Register a descriptor-driven extension mode.
    pub fn register_extension(&mut self, descriptor: ModeDescriptor) -> (r: Result<(), String>)
        ensures
            final(self).sessions == old(self).sessions,
            final(self).policy_registry == old(self).policy_registry,
            final(self).metrics == old(self).metrics,
            match descriptor_error(descriptor) {
                Some(msg) => r matches Err(e) && e@ == msg && final(self).mode_registry@ == old(
                    self,
                ).mode_registry@,
                None => if old(self).mode_registry@.contains_key(descriptor.mode@) {
                    &&& r matches Err(e) && e@ == "mode '"@ + descriptor.mode@ + "' is already registered"@
                    &&& final(self).mode_registry@ == old(self).mode_registry@
                } else {
                    &&& r is Ok
                    &&& final(self).mode_registry@ == old(self).mode_registry@.insert(
                        descriptor.mode@,
                        final(self).mode_registry@[descriptor.mode@],
                    )
                    &&& extension_registration(final(self).mode_registry@[descriptor.mode@], descriptor)
                },
            },
    {
        self.mode_registry.register_extension(descriptor)
    }

    /// Unregister a dynamically registered extension mode.
    pub fn unregister_extension(&mut self, mode: &str) -> (r: Result<(), String>)
        ensures
            final(self).sessions == old(self).sessions,
            final(self).policy_registry == old(self).policy_registry,
            final(self).metrics == old(self).metrics,
            ({
                let before = old(self).mode_registry@;
                let after = final(self).mode_registry@;
                &&& !before.contains_key(mode@) ==> (r matches Err(e) && e@ == "mode '"@ + mode@
                    + "' not found"@) && after == before
                &&& before.contains_key(mode@) && before[mode@].builtin ==> (r matches Err(e) && e@
                    == "cannot unregister built-in mode '"@ + mode@ + "'"@) && after == before
                &&& before.contains_key(mode@) && !before[mode@].builtin
                    && before[mode@].standards_track ==> (r matches Err(e) && e@
                    == "cannot unregister standards-track mode '"@ + mode@ + "'"@) && after == before
                &&& before.contains_key(mode@) && !before[mode@].builtin
                    && !before[mode@].standards_track ==> r is Ok && after == before.remove(mode@)
            }),
    {
        self.mode_registry.unregister_extension(mode)
    }

    /// Promote an extension mode to standards-track, optionally under a new name.
    pub fn promote_mode(&mut self, mode: &str, new_name: Option<&str>) -> (r: Result<String, String>)
        ensures
            final(self).sessions == old(self).sessions,
            final(self).policy_registry == old(self).policy_registry,
            final(self).metrics == old(self).metrics,
            ({
                let before = old(self).mode_registry@;
                let after = final(self).mode_registry@;
                let target = match new_name {
                    Some(n) => n@,
                    None => mode@,
                };
                if !before.contains_key(mode@) {
                    r matches Err(e) && e@ == "mode '"@ + mode@ + "' not found"@ && after == before
                } else if before[mode@].standards_track {
                    r matches Err(e) && e@ == "mode '"@ + mode@ + "' is already standards-track"@
                        && after == before
                } else if target != mode@ && before.contains_key(target) {
                    r matches Err(e) && e@ == "cannot promote: target name '"@ + target
                        + "' already exists"@ && after == before
                } else {
                    &&& r matches Ok(n) && n@ == target
                    &&& after == before.remove(mode@).insert(target, after[target])
                    &&& after[target] == (crate::mode_registry::ModeRegistration {
                        mode_name: after[target].mode_name,
                        standards_track: true,
                        strict_session_start: true,
                        ..before[mode@]
                    })
                    &&& after[target].mode_name@ == target
                }
            }),
    {
        self.mode_registry.promote_mode(mode, new_name)
    }

    /// The mode registry.
    pub fn mode_registry(&self) -> (r: &ModeRegistry)
        ensures
            *r == self.mode_registry,
    {
        &self.mode_registry
    }

    /// Register a policy definition.
    pub fn register_policy(&mut self, definition: PolicyDefinition) -> (r: Result<(), String>)
        ensures
            final(self).sessions == old(self).sessions,
            final(self).mode_registry == old(self).mode_registry,
            final(self).metrics == old(self).metrics,
            match definition_error(definition) {
                Some(msg) => r matches Err(e) && e@ == msg && final(self).policy_registry@ == old(
                    self,
                ).policy_registry@,
                None => if old(self).policy_registry@.contains_key(definition.policy_id@) {
                    &&& r matches Err(e) && e@ == "policy '"@ + definition.policy_id@
                        + "' is already registered"@
                    &&& final(self).policy_registry@ == old(self).policy_registry@
                } else {
                    r is Ok && final(self).policy_registry@ == old(self).policy_registry@.insert(
                        definition.policy_id@,
                        definition,
                    )
                },
            },
    {
        self.policy_registry.register(definition)
    }

    /// Unregister a policy by id.
    pub fn unregister_policy(&mut self, policy_id: &str) -> (r: Result<(), String>)
        ensures
            final(self).sessions == old(self).sessions,
            final(self).mode_registry == old(self).mode_registry,
            final(self).metrics == old(self).metrics,
            ({
                let before = old(self).policy_registry@;
                let after = final(self).policy_registry@;
                &&& policy_id@ == "policy.default"@ ==> (r matches Err(e) && e@
                    == "cannot unregister the built-in default policy"@) && after == before
                &&& policy_id@ != "policy.default"@ && !before.contains_key(policy_id@) ==> (r matches Err(
                    e,
                ) && e@ == "policy '"@ + policy_id@ + "' not found"@) && after == before
                &&& policy_id@ != "policy.default"@ && before.contains_key(policy_id@) ==> r is Ok
                    && after == before.remove(policy_id@)
            }),
    {
        self.policy_registry.unregister(policy_id)
    }

    /// The policy registered under `policy_id`.
    pub fn get_policy(&self, policy_id: &str) -> (r: Option<PolicyDefinition>)
        ensures
            r is None <==> !self.policy_registry@.contains_key(policy_id@),
            r matches Some(p) ==> same_policy(p, self.policy_registry@[policy_id@]),
    {
        self.policy_registry.get(policy_id)
    }

    /// The registered policies, optionally only those for one mode (or for every mode).
    pub fn list_policies(&self, mode_filter: Option<&str>) -> (r: Vec<PolicyDefinition>)
        ensures
            ({
                let filter = match mode_filter {
                    Some(m) => Some(m@),
                    None => None,
                };
                &&& r@.len() == listed(self.policy_registry.definitions(), filter).len()
                &&& forall|i: int|
                    0 <= i < r@.len() ==> same_policy(
                        #[trigger] r@[i],
                        listed(self.policy_registry.definitions(), filter)[i],
                    )
            }),
    {
        self.policy_registry.list(mode_filter)
    }

    /// The policy registry.
    pub fn policy_registry(&self) -> (r: &PolicyRegistry)
        ensures
            *r == self.policy_registry,
    {
        &self.policy_registry
    }

    /// The kernel's counters.
    pub fn metrics(&self) -> (r: &RuntimeMetrics)
        ensures
            *r == self.metrics,
    {
        &self.metrics
    }

    fn count_open_sessions_for_initiator(&self, sender: &str, now: i64) -> (r: usize)
        ensures
            r == open_count(self.sessions.entries_seq(), sender@, now),
    {
        let entries = self.sessions.entries();
        let n = entries.len();
        let mut count: usize = 0;
        let mut i: usize = 0;
        while i < n
            invariant
                n == entries@.len(),
                i <= n,
                count <= i,
                count == open_count(entries@.take(i as int), sender@, now),
            decreases n - i,
        {
            assert(entries@.take(i + 1).drop_last() =~= entries@.take(i as int));
            assert(entries@.take(i + 1).last() == entries@[i as int]);
            let s = &entries[i].1;
            if str_eq(s.initiator_sender.as_str(), sender) && s.state == SessionState::Open && now
                <= s.ttl_expiry {
                count = count + 1;
            }
            i = i + 1;
        }
        assert(entries@.take(n as int) =~= entries@);
        count
    }

    /// Sessions started by `sender` that are open and within their TTL at `now`.
    pub fn count_open_sessions(&self, sender: &str, now: i64) -> (r: usize)
        ensures
            r == open_count(self.sessions.entries_seq(), sender@, now),
    {
        self.count_open_sessions_for_initiator(sender, now)
    }

    /// Decide a SessionStart received at `now` (ms since the Unix epoch).
    pub fn plan_session_start(
        &self,
        env: &Envelope,
        payload: &MessagePayload,
        max_open_sessions: Option<usize>,
        now: i64,
    ) -> (r: Result<StartPlan, MacpError>)
        ensures
            match start_decision(*self, *env, *payload, max_open_sessions, now) {
                StartDecision::Refused(e) => r == Err::<StartPlan, MacpError>(e),
                StartDecision::Duplicate(st) => r matches Ok(StartPlan::Duplicate(x)) && x == st,
                StartDecision::Create { factory, ttl_ms, policy_version, policy } => exists|
                    base: Session,
                    after: Session,
                    rm: Result<ModeResponse, MacpError>,
                | #[trigger] started_by_mode(
                    factory,
                    *env,
                    payload->SessionStart_0,
                    ttl_ms,
                    policy_version,
                    policy,
                    now,
                    base,
                    after,
                    rm,
                ) && match rm {
                    Ok(_) => r matches Ok(StartPlan::Create(s)) && s == after,
                    Err(e) => r == Err::<StartPlan, MacpError>(e),
                },
            },
    {
        if str_is_blank(env.mode.as_str()) {
            return Err(MacpError::InvalidEnvelope);
        }
        if let Err(e) = validate_session_id_for_acceptance(env.session_id.as_str()) {
            return Err(e);
        }
        let reg = match self.mode_registry.registration(env.mode.as_str()) {
            Some(reg) => reg,
            None => {
                return Err(MacpError::UnknownMode);
            },
        };
        let p = match payload {
            MessagePayload::SessionStart(p) => p,
            _ => {
                return Err(MacpError::InvalidPayload);
            },
        };
        if reg.strict_session_start {
            if let Err(e) = validate_canonical_session_start_payload(p) {
                return Err(e);
            }
        }
        // Validate mode_version matches the registered descriptor's version
        match &reg.descriptor {
            Some(d) => {
                if p.mode_version.as_str().unicode_len() != 0 && !str_eq(
                    p.mode_version.as_str(),
                    d.mode_version.as_str(),
                ) {
                    return Err(MacpError::InvalidEnvelope);
                }
            },
            None => {},
        }
        let ttl_ms = match extract_ttl_ms(p) {
            Ok(t) => t,
            Err(e) => {
                return Err(e);
            },
        };
        match self.sessions.get(env.session_id.as_str()) {
            Some(existing) => {
                if existing.has_seen_message(env.message_id.as_str()) {
                    return Ok(StartPlan::Duplicate(existing.state));
                }
                return Err(MacpError::SessionAlreadyExists);
            },
            None => {},
        }
        // Enforce max_open_sessions against the sessions already started.
        match max_open_sessions {
            Some(max_open) => {
                if self.count_open_sessions_for_initiator(env.sender.as_str(), now) >= max_open {
                    return Err(MacpError::RateLimited);
                }
            },
            None => {},
        }
        // The policy_version is resolved at SessionStart; empty
        // resolves to "policy.default". The resolved definition is stored on
        // the session for deterministic replay.
        let effective_policy_version = if p.policy_version.as_str().unicode_len() == 0 {
            owned(crate::policy::defaults::DEFAULT_POLICY_ID)
        } else {
            p.policy_version.clone()
        };
        proof {
            reveal_strlit("policy.default");
        }
        let policy = match self.policy_registry.resolve(effective_policy_version.as_str()) {
            Ok(policy) => policy,
            Err(_) => {
                return Err(MacpError::UnknownPolicyVersion);
            },
        };
        // A policy bound to another mode is refused.
        if !str_eq(policy.mode.as_str(), "*") && !str_eq(policy.mode.as_str(), env.mode.as_str()) {
            return Err(MacpError::InvalidPolicyDefinition);
        }
        // The TTL deadline is computed from the SessionStart
        // envelope's timestamp, falling back to the time of acceptance.
        let ttl_base = if env.timestamp_unix_ms > 0 {
            env.timestamp_unix_ms
        } else {
            now
        };
        let ttl_expiry = match ttl_base.checked_add(ttl_ms) {
            Some(t) => t,
            None => if ttl_ms > 0 {
                i64::MAX
            } else {
                i64::MIN
            },
        };
        let mut seen: Vec<String> = Vec::new();
        seen.push(env.message_id.clone());
        let mut session = Session {
            session_id: env.session_id.clone(),
            state: SessionState::Open,
            ttl_expiry,
            ttl_ms,
            started_at_unix_ms: now,
            resolution: None,
            mode: env.mode.clone(),
            mode_state: ModeState::Empty,
            participants: copy_strings(&p.participants),
            seen_message_ids: seen,
            intent: p.intent.clone(),
            mode_version: p.mode_version.clone(),
            configuration_version: p.configuration_version.clone(),
            policy_version: effective_policy_version,
            context: copy_bytes(&p.context),
            roots: copy_roots(&p.roots),
            initiator_sender: env.sender.clone(),
            participant_message_counts: KeyedVec::new(),
            participant_last_seen: KeyedVec::new(),
            policy_definition: Some(policy),
        };
        let ghost base = session;
        let ghost d = start_decision(*self, *env, *payload, max_open_sessions, now);
        proof {
            assert(fresh_session(base, *env, *p, d->ttl_ms, d->policy_version, d->policy, now));
        }
        let rm = reg.factory.on_session_start(&mut session, env);
        proof {
            assert(started_by_mode(
                d->factory,
                *env,
                payload->SessionStart_0,
                d->ttl_ms,
                d->policy_version,
                d->policy,
                now,
                base,
                session,
                rm,
            ));
        }
        let r = match rm {
            Ok(_) => Ok(StartPlan::Create(session)),
            Err(e) => Err(e),
        };
        r
    }

    /// Commit a planned session after its start has been written to the log.
    pub fn commit_session_start(&mut self, session: Session) -> (r: ProcessResult)
        ensures
            r == (ProcessResult { session_state: session.state, duplicate: false }),
            final(self).sessions@ == old(self).sessions@.insert(session.session_id@, session),
            final(self).metrics@ == old(self).metrics@.insert(
                session.mode@,
                bumped(metrics_of(old(self).metrics@, session.mode@), Counter::SessionsStarted),
            ),
            final(self).mode_registry == old(self).mode_registry,
            final(self).policy_registry == old(self).policy_registry,
    {
        let state = session.state;
        self.metrics.record_session_start(session.mode.as_str());
        let id = session.session_id.clone();
        self.sessions.insert(id, session);
        ProcessResult { session_state: state, duplicate: false }
    }

    /// Decide a session message received at `now`. Nothing changes.
    pub fn plan_message(
        &self,
        env: &Envelope,
        payload: &MessagePayload,
        judgments: &PolicyJudgments,
        now: i64,
    ) -> (r: Result<MessagePlan, MacpError>)
        ensures
            r == message_decision(*self, *env, *payload, *judgments, now),
    {
        let s = match self.sessions.get(env.session_id.as_str()) {
            Some(s) => s,
            None => {
                return Err(MacpError::UnknownSession);
            },
        };
        if s.has_seen_message(env.message_id.as_str()) {
            return Ok(MessagePlan::Duplicate(s.state));
        }
        // The envelope's mode must be the session's bound mode.
        if !str_eq(env.mode.as_str(), s.mode.as_str()) {
            return Err(MacpError::InvalidEnvelope);
        }
        if s.state == SessionState::Open && now > s.ttl_expiry {
            return Ok(MessagePlan::Expire);
        }
        if s.state != SessionState::Open {
            return Err(MacpError::SessionNotOpen);
        }
        let reg = match self.mode_registry.registration(s.mode.as_str()) {
            Some(reg) => reg,
            None => {
                return Err(MacpError::UnknownMode);
            },
        };
        if let Err(e) = reg.factory.authorize_sender(s, env) {
            return Err(e);
        }
        match reg.factory.check_message_at(s, env, payload, judgments, now) {
            Ok(()) => Ok(MessagePlan::Accept),
            Err(e) => Err(e),
        }
    }

    /// Apply a session message after it has been written to the log: the
    /// mode handles it, its id is recorded, and the sender's activity counted.
    /// Succeeds exactly when [`Self::plan_message`] accepts the message or
    /// finds it a duplicate; otherwise nothing changes.
    pub fn apply_message(
        &mut self,
        env: &Envelope,
        payload: MessagePayload,
        judgments: &PolicyJudgments,
        now: i64,
    ) -> (r: Result<ProcessResult, MacpError>)
        ensures
            final(self).mode_registry == old(self).mode_registry,
            final(self).policy_registry == old(self).policy_registry,
            match message_decision(*old(self), *env, payload, *judgments, now) {
                Err(e) => r == Err::<ProcessResult, MacpError>(e) && final(self).sessions@ == old(
                    self,
                ).sessions@ && final(self).metrics@ == old(self).metrics@,
                Ok(MessagePlan::Duplicate(st)) => r == Ok::<ProcessResult, MacpError>(
                    ProcessResult { session_state: st, duplicate: true },
                ) && final(self).sessions@ == old(self).sessions@ && final(self).metrics@ == old(
                    self,
                ).metrics@,
                Ok(MessagePlan::Expire) => r == Err::<ProcessResult, MacpError>(MacpError::TtlExpired)
                    && final(self).sessions@ == old(self).sessions@ && final(self).metrics@ == old(
                    self,
                ).metrics@,
                Ok(MessagePlan::Accept) => {
                    let before = old(self).sessions@[env.session_id@];
                    let after = final(self).sessions@[env.session_id@];
                    let f = old(self).mode_registry@[before.mode@].factory;
                    &&& r == Ok::<ProcessResult, MacpError>(
                        ProcessResult { session_state: after.state, duplicate: false },
                    )
                    &&& final(self).sessions@ == old(self).sessions@.insert(env.session_id@, after)
                    &&& exists|mid: Session, rm: Result<ModeResponse, MacpError>|
                        #[trigger] factory_outcome_at(f, before, mid, rm, *env, payload, *judgments, now)
                            && rm is Ok && recorded(mid, after, *env, now)
                    &&& final(self).metrics@ == accepted_metrics(
                        old(self).metrics@,
                        before.mode@,
                        env.message_type@ == "Commitment"@,
                        after.state == SessionState::Resolved,
                    )
                },
            },
    {
        let plan = self.plan_message(env, &payload, judgments, now);
        match plan {
            Err(e) => {
                return Err(e);
            },
            Ok(MessagePlan::Duplicate(st)) => {
                return Ok(ProcessResult { session_state: st, duplicate: true });
            },
            Ok(MessagePlan::Expire) => {
                return Err(MacpError::TtlExpired);
            },
            Ok(MessagePlan::Accept) => {},
        }
        let ghost before = self.sessions@[env.session_id@];
        let mut session = match self.sessions.remove(env.session_id.as_str()) {
            Some(s) => s,
            None => {
                return Err(MacpError::UnknownSession);
            },
        };
        let ghost removed = self.sessions@;
        let rm = match self.mode_registry.registration(session.mode.as_str()) {
            Some(reg) => {
                let rm = reg.factory.on_message_at(&mut session, env, payload, judgments, now);
                proof {
                    lemma_outcome_matches_error(
                        reg.factory,
                        before,
                        session,
                        rm,
                        *env,
                        payload,
                        *judgments,
                        now,
                    );
                }
                rm
            },
            None => Err(MacpError::UnknownMode),
        };
        let ghost mid = session;
        session.mark_seen(env.message_id.as_str());
        session.record_participant_activity(env.sender.as_str(), now);
        let state = session.state;
        let is_commitment = str_eq(env.message_type.as_str(), "Commitment");
        self.metrics.record_message_accepted(session.mode.as_str());
        if is_commitment {
            self.metrics.record_commitment_accepted(session.mode.as_str());
        }
        if state == SessionState::Resolved {
            self.metrics.record_session_resolved(session.mode.as_str());
        }
        let id = env.session_id.clone();
        self.sessions.insert(id, session);
        proof {
            assert(self.sessions@ =~= old(self).sessions@.insert(env.session_id@, self.sessions@[env.session_id@]));
        }
        match rm {
            Ok(_) => Ok(ProcessResult { session_state: state, duplicate: false }),
            Err(e) => Err(e),
        }
    }

    /// Whether the session is open and its TTL has passed at `now`.
    pub fn session_due_to_expire(&self, session_id: &str, now: i64) -> (r: bool)
        ensures
            r == (self.sessions@.contains_key(session_id@) && self.sessions@[session_id@].state
                == SessionState::Open && now > self.sessions@[session_id@].ttl_expiry),
    {
        match self.sessions.get(session_id) {
            Some(s) => s.state == SessionState::Open && now > s.ttl_expiry,
            None => false,
        }
    }

    /// Mark the session expired (after its TTL expiry or cancellation has
    /// been logged), counting it under `counter`.
    fn close_session(&mut self, session_id: &str, counter: Counter) -> (r: Option<SessionState>)
        ensures
            final(self).mode_registry == old(self).mode_registry,
            final(self).policy_registry == old(self).policy_registry,
            r is None <==> !old(self).sessions@.contains_key(session_id@),
            r is None ==> final(self).sessions@ == old(self).sessions@ && final(self).metrics@ == old(
                self,
            ).metrics@,
            r is Some ==> {
                let s = old(self).sessions@[session_id@];
                &&& r == Some(SessionState::Expired)
                &&& final(self).sessions@ == old(self).sessions@.insert(
                    session_id@,
                    Session { state: SessionState::Expired, ..s },
                )
                &&& final(self).metrics@ == old(self).metrics@.insert(
                    s.mode@,
                    bumped(metrics_of(old(self).metrics@, s.mode@), counter),
                )
            },
    {
        match self.sessions.remove(session_id) {
            Some(session) => {
                let mut session = session;
                session.state = SessionState::Expired;
                self.metrics.record(session.mode.as_str(), counter);
                self.sessions.insert(owned(session_id), session);
                Some(SessionState::Expired)
            },
            None => None,
        }
    }

    /// Expire a session whose TTL expiry has been logged.
    pub fn expire_session(&mut self, session_id: &str) -> (r: Option<SessionState>)
        ensures
            final(self).mode_registry == old(self).mode_registry,
            final(self).policy_registry == old(self).policy_registry,
            r is None <==> !old(self).sessions@.contains_key(session_id@),
            r is None ==> final(self).sessions@ == old(self).sessions@ && final(self).metrics@ == old(
                self,
            ).metrics@,
            r is Some ==> {
                let s = old(self).sessions@[session_id@];
                &&& r == Some(SessionState::Expired)
                &&& final(self).sessions@ == old(self).sessions@.insert(
                    session_id@,
                    Session { state: SessionState::Expired, ..s },
                )
                &&& final(self).metrics@ == old(self).metrics@.insert(
                    s.mode@,
                    bumped(metrics_of(old(self).metrics@, s.mode@), Counter::SessionsExpired),
                )
            },
    {
        self.close_session(session_id, Counter::SessionsExpired)
    }

    /// Decide a cancellation requested at `now`.
    pub fn plan_cancel(&self, session_id: &str, now: i64) -> (r: Result<CancelPlan, MacpError>)
        ensures
            !self.sessions@.contains_key(session_id@) ==> r == Err::<CancelPlan, MacpError>(
                MacpError::UnknownSession,
            ),
            self.sessions@.contains_key(session_id@) ==> {
                let s = self.sessions@[session_id@];
                if s.state == SessionState::Open && now > s.ttl_expiry {
                    r == Ok::<CancelPlan, MacpError>(CancelPlan::ExpireFirst)
                } else if s.state != SessionState::Open {
                    r == Ok::<CancelPlan, MacpError>(CancelPlan::Terminal(s.state))
                } else {
                    r == Ok::<CancelPlan, MacpError>(CancelPlan::Cancel)
                }
            },
    {
        match self.sessions.get(session_id) {
            Some(s) => {
                if s.state == SessionState::Open && now > s.ttl_expiry {
                    Ok(CancelPlan::ExpireFirst)
                } else if s.state != SessionState::Open {
                    Ok(CancelPlan::Terminal(s.state))
                } else {
                    Ok(CancelPlan::Cancel)
                }
            },
            None => Err(MacpError::UnknownSession),
        }
    }

    /// Cancel a session whose cancellation has been logged: an open session
    /// ends expired; a resolved or expired one is left as it is and answered
    /// with its state.
    pub fn cancel_session(&mut self, session_id: &str) -> (r: Result<ProcessResult, MacpError>)
        ensures
            final(self).mode_registry == old(self).mode_registry,
            final(self).policy_registry == old(self).policy_registry,
            !old(self).sessions@.contains_key(session_id@) ==> r == Err::<ProcessResult, MacpError>(
                MacpError::UnknownSession,
            ) && final(self).sessions@ == old(self).sessions@ && final(self).metrics@ == old(
                self,
            ).metrics@,
            old(self).sessions@.contains_key(session_id@) && old(self).sessions@[session_id@].state
                != SessionState::Open ==> {
                &&& r == Ok::<ProcessResult, MacpError>(
                    ProcessResult { session_state: old(self).sessions@[session_id@].state, duplicate: false },
                )
                &&& final(self).sessions@ == old(self).sessions@
                &&& final(self).metrics@ == old(self).metrics@
            },
            old(self).sessions@.contains_key(session_id@) && old(self).sessions@[session_id@].state
                == SessionState::Open ==> {
                let s = old(self).sessions@[session_id@];
                &&& r == Ok::<ProcessResult, MacpError>(
                    ProcessResult { session_state: SessionState::Expired, duplicate: false },
                )
                &&& final(self).sessions@ == old(self).sessions@.insert(
                    session_id@,
                    Session { state: SessionState::Expired, ..s },
                )
                &&& final(self).metrics@ == old(self).metrics@.insert(
                    s.mode@,
                    bumped(metrics_of(old(self).metrics@, s.mode@), Counter::SessionsCancelled),
                )
            },
    {
        let state = match self.sessions.get(session_id) {
            Some(s) => s.state,
            None => {
                return Err(MacpError::UnknownSession);
            },
        };
        if state != SessionState::Open {
            return Ok(ProcessResult { session_state: state, duplicate: false });
        }
        match self.close_session(session_id, Counter::SessionsCancelled) {
            Some(state) => Ok(ProcessResult { session_state: state, duplicate: false }),
            None => Err(MacpError::UnknownSession),
        }
    }

    /// The ids of open sessions whose TTL has passed at `now`, in id order.
    pub fn expired_session_ids(&self, now: i64) -> (r: Vec<String>)
        ensures
            crate::text::texts(r@) == expired_ids(self.sessions.entries_seq(), now),
    {
        let entries = self.sessions.entries();
        let n = entries.len();
        let mut out: Vec<String> = Vec::new();
        let mut i: usize = 0;
        while i < n
            invariant
                n == entries@.len(),
                i <= n,
                crate::text::texts(out@) == expired_ids(entries@.take(i as int), now),
            decreases n - i,
        {
            assert(entries@.take(i + 1).drop_last() =~= entries@.take(i as int));
            assert(entries@.take(i + 1).last() == entries@[i as int]);
            let ghost prev = crate::text::texts(out@);
            if entries[i].1.state == SessionState::Open && now > entries[i].1.ttl_expiry {
                out.push(entries[i].0.clone());
                assert(crate::text::texts(out@) =~= prev.push(entries@[i as int].0@));
            }
            i = i + 1;
        }
        assert(entries@.take(n as int) =~= entries@);
        out
    }

    /// Evict resolved and expired sessions started more than `retention_secs`
    /// seconds before `now`; returns their ids. Open sessions stay.
    pub fn evict_stale_sessions(&mut self, retention_secs: u64, now: i64) -> (r: Vec<String>)
        ensures
            crate::text::texts(r@) == stale_ids(
                old(self).sessions.entries_seq(),
                now - retention_secs * 1000,
            ),
            forall|k: Seq<char>|
                crate::text::texts(r@).contains(k) <==> (old(self).sessions@.contains_key(k) && is_stale(
                    old(self).sessions@[k],
                    now - retention_secs * 1000,
                )),
            forall|k: Seq<char>|
                #[trigger] final(self).sessions@.contains_key(k) <==> old(self).sessions@.contains_key(k)
                    && !crate::text::texts(r@).contains(k),
            forall|k: Seq<char>|
                #[trigger] final(self).sessions@.contains_key(k) ==> final(self).sessions@[k] == old(
                    self,
                ).sessions@[k],
            final(self).mode_registry == old(self).mode_registry,
            final(self).policy_registry == old(self).policy_registry,
            final(self).metrics == old(self).metrics,
    {
        let cutoff: i128 = (now as i128) - (retention_secs as i128) * 1000;
        let entries = self.sessions.entries();
        let n = entries.len();
        let mut out: Vec<String> = Vec::new();
        let mut i: usize = 0;
        while i < n
            invariant
                n == entries@.len(),
                cutoff == now - retention_secs * 1000,
                i <= n,
                crate::text::texts(out@) == stale_ids(entries@.take(i as int), cutoff as int),
            decreases n - i,
        {
            assert(entries@.take(i + 1).drop_last() =~= entries@.take(i as int));
            assert(entries@.take(i + 1).last() == entries@[i as int]);
            let ghost prev = crate::text::texts(out@);
            let s = &entries[i].1;
            if (s.state == SessionState::Resolved || s.state == SessionState::Expired)
                && (s.started_at_unix_ms as i128) < cutoff {
                out.push(entries[i].0.clone());
                assert(crate::text::texts(out@) =~= prev.push(entries@[i as int].0@));
            }
            i = i + 1;
        }
        assert(entries@.take(n as int) =~= entries@);
        proof {
            lemma_stale_ids_members(entries@, cutoff as int);
        }
        let ghost ids = crate::text::texts(out@);
        let ghost start = self.sessions@;
        let mut k: usize = 0;
        while k < out.len()
            invariant
                k <= out@.len(),
                ids == crate::text::texts(out@),
                self.mode_registry == old(self).mode_registry,
                self.policy_registry == old(self).policy_registry,
                self.metrics == old(self).metrics,
                start == old(self).sessions@,
                forall|key: Seq<char>|
                    #[trigger] self.sessions@.contains_key(key) <==> start.contains_key(key)
                        && !ids.take(k as int).contains(key),
                forall|key: Seq<char>|
                    #[trigger] self.sessions@.contains_key(key) ==> self.sessions@[key] == start[key],
            decreases out@.len() - k,
        {
            let ghost before = self.sessions@;
            self.sessions.remove(out[k].as_str());
            proof {
                assert(ids[k as int] == out@[k as int]@);
                assert forall|key: Seq<char>| ids.take(k + 1).contains(key) <==> (ids.take(
                    k as int,
                ).contains(key) || key == ids[k as int]) by {
                    if ids.take(k + 1).contains(key) {
                        let j = choose|j: int| 0 <= j < k + 1 && #[trigger] ids.take(k + 1)[j] == key;
                        if j < k {
                            assert(ids.take(k as int)[j] == key);
                        }
                    }
                    if ids.take(k as int).contains(key) {
                        let j = choose|j: int| 0 <= j < k && #[trigger] ids.take(k as int)[j] == key;
                        assert(ids.take(k + 1)[j] == key);
                    }
                    if key == ids[k as int] {
                        assert(ids.take(k + 1)[k as int] == key);
                    }
                }
            }
            k = k + 1;
        }
        assert(ids.take(out@.len() as int) =~= ids);
        out
    }

    /// The session with the given id.
    pub fn get_session(&self, session_id: &str) -> (r: Option<&Session>)
        ensures
            r is None <==> !self.sessions@.contains_key(session_id@),
            r matches Some(s) ==> *s == self.sessions@[session_id@],
    {
        self.sessions.get(session_id)
    }

    /// Put back a session rebuilt from storage.
    pub fn insert_recovered_session(&mut self, session_id: String, session: Session)
        ensures
            final(self).sessions@ == old(self).sessions@.insert(session_id@, session),
            final(self).mode_registry == old(self).mode_registry,
            final(self).policy_registry == old(self).policy_registry,
            final(self).metrics == old(self).metrics,
    {
        self.sessions.insert(session_id, session);
    }

    /// Decide a Signal or Progress envelope: neither touches session state,
    /// and both are answered as open.
    pub fn check_signal(env: &Envelope, payload: &MessagePayload) -> (r: Result<ProcessResult, MacpError>)
        ensures
            match signal_rejection(*env, *payload) {
                Some(e) => r == Err::<ProcessResult, MacpError>(e),
                None => r == Ok::<ProcessResult, MacpError>(
                    ProcessResult { session_state: SessionState::Open, duplicate: false },
                ),
            },
    {
        let mt = env.message_type.as_str();
        if str_eq(mt, "Signal") && (env.session_id.unicode_len() > 0
            || env.mode.unicode_len() > 0) {
            return Err(MacpError::InvalidEnvelope);
        }
        if str_eq(mt, "Signal") && env.payload.len() != 0 {
            match payload {
                MessagePayload::Signal(p) => {
                    if str_is_blank(p.signal_type.as_str()) {
                        return Err(MacpError::InvalidPayload);
                    }
                },
                _ => {
                    return Err(MacpError::InvalidPayload);
                },
            }
        } else if str_eq(mt, "Progress") && env.payload.len() != 0 {
            match payload {
                MessagePayload::Progress => {},
                _ => {
                    return Err(MacpError::InvalidPayload);
                },
            }
        }
        Ok(ProcessResult { session_state: SessionState::Open, duplicate: false })
    }
}

} // verus!
