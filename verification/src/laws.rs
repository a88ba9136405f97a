//! Properties of the runtime that span several operations, stated over the
//! specifications that the operations' contracts use.
use vstd::prelude::*;
use crate::error::MacpError;
use crate::keyed::{lemma_map_len, KeyedVec};
use crate::log_store::{EntryKind, LogEntry};
use crate::metrics::{bumped, counter_value, event_count, metrics_of, recorded_metrics, Counter};
use crate::mode::decision::DecisionView;
use crate::mode::handoff::{handoff_outcome, handoff_view_of};
use crate::mode::proposal::criterion_met;
use crate::mode::task::{task_outcome, task_view_of};
use crate::mode::{ModeResponse, PolicyJudgments};
use crate::ordered::{keys_sorted, lemma_keys_of_sorted, lemma_sorted_unique, names_sorted};
use crate::mode_registry::{
    all_names, descriptor_error, extension_registration, factory_outcome, factory_outcome_at, factory_sender_allowed,
    factory_started, lemma_all_names_keys, ModeFactory, ModeRegistration, ModeRegistry,
};
use crate::pb::{Envelope, HandoffContextPayload, MessagePayload, ModeDescriptor};
use crate::policy::registry::definition_error;
use crate::ieee754::{lt, F64_ZERO};
use crate::policy::defaults::is_default_policy;
use crate::policy::evaluator::{count_votes_with, decision_verdict, handoff_verdict, proposal_verdict, quorum_verdict, task_verdict};
use crate::policy::{same_policy, PolicyDefinition};
use crate::replay::{
    begin_error, begun, checkpoint_index, marked, marked_if_named, replay_outcome, replay_result, replay_step, replays,
    resumable, start_index, Checkpoint,
};
use crate::runtime::{message_decision, recorded, start_decision, started_by_mode, MessagePlan, Runtime, StartDecision};
use crate::security::{checked_bucket, expired_at, trim_front, window_events, RateLimitConfig};
use crate::session::{has_seen, session_id_acceptable, ModeState, Session, SessionState};
use crate::text::texts;

verus! {

/// A resolved or expired session accepts nothing more: a new message that
/// names its mode is refused with `SessionNotOpen`, whatever it carries and
/// whenever it arrives.
pub proof fn law_terminal_session_refuses_messages(
    rt: Runtime,
    env: Envelope,
    payload: MessagePayload,
    j: PolicyJudgments,
    now: i64,
)
    requires
        rt.sessions@.contains_key(env.session_id@),
        rt.sessions@[env.session_id@].state != SessionState::Open,
        !has_seen(rt.sessions@[env.session_id@], env.message_id@),
        env.mode@ == rt.sessions@[env.session_id@].mode@,
    ensures
        message_decision(rt, env, payload, j, now) == Err::<MessagePlan, MacpError>(MacpError::SessionNotOpen),
{
}

/// Once a message is accepted, sending it again is acknowledged as a
/// duplicate with the session's current state, and changes nothing.
pub proof fn law_accepted_message_is_duplicate_after(
    rt: Runtime,
    next: Runtime,
    env: Envelope,
    mid: Session,
    after: Session,
    now: i64,
    payload2: MessagePayload,
    j2: PolicyJudgments,
    now2: i64,
)
    requires
        next.sessions@ == rt.sessions@.insert(env.session_id@, after),
        recorded(mid, after, env, now),
    ensures
        message_decision(next, env, payload2, j2, now2) == Ok::<MessagePlan, MacpError>(
            MessagePlan::Duplicate(after.state),
        ),
{
}

/// A message id once seen in a session stays seen through every accepted
/// message: deduplication never forgets.
pub proof fn law_seen_ids_persist(mid: Session, after: Session, env: Envelope, now: i64, id: Seq<char>)
    requires
        recorded(mid, after, env, now),
        has_seen(mid, id),
    ensures
        has_seen(after, id),
{
}

/// The rate limit holds: after an accepted event the sender has at most
/// `limit` events in the window, and a refused event records nothing new.
pub proof fn law_rate_limit_bound(
    before: Map<Seq<char>, Vec<u64>>,
    after: Map<Seq<char>, Vec<u64>>,
    sender: Seq<char>,
    config: RateLimitConfig,
    now: u64,
)
    requires
        checked_bucket(before, after, sender, config, now),
    ensures
        window_events(before, sender, now, config.window_ms).len() < config.limit ==> after[sender]@.len()
            <= config.limit,
        window_events(before, sender, now, config.window_ms).len() >= config.limit ==> after[sender]@
            == window_events(before, sender, now, config.window_ms),
{
}

proof fn lemma_rate_window(
    buckets: Seq<Map<Seq<char>, Vec<u64>>>,
    sender: Seq<char>,
    config: RateLimitConfig,
    times: Seq<u64>,
    i: int,
)
    requires
        buckets.len() == times.len() + 1,
        0 <= i < times.len(),
        window_events(buckets[0], sender, times[0], config.window_ms).len() == 0,
        forall|k: int|
            0 <= k < times.len() ==> checked_bucket(
                #[trigger] buckets[k],
                buckets[k + 1],
                sender,
                config,
                times[k],
            ),
        forall|k: int| 0 <= k < times.len() ==> times[0] <= #[trigger] times[k] <= times[0] + config.window_ms,
    ensures
        window_events(buckets[i], sender, times[i], config.window_ms).len() == if i < config.limit {
            i
        } else {
            config.limit as int
        },
        forall|e: int|
            0 <= e < window_events(buckets[i], sender, times[i], config.window_ms).len() ==> times[0]
                <= #[trigger] window_events(buckets[i], sender, times[i], config.window_ms)[e],
    decreases i,
{
    if i > 0 {
        let w = config.window_ms;
        lemma_rate_window(buckets, sender, config, times, i - 1);
        assert(checked_bucket(buckets[i - 1], buckets[i], sender, config, times[i - 1]));
        let b = buckets[i];
        let d = b[sender]@;
        assert(times[0] <= times[i - 1] && times[i] <= times[0] + w);
        // every event recorded so far lies within the window at times[i]
        assert forall|e: int| 0 <= e < d.len() implies times[0] <= #[trigger] d[e] && !expired_at(
            d[e],
            times[i],
            w,
        ) by {}
        if d.len() > 0 {
            assert(!expired_at(d[0], times[i], w));
            assert(!expired_at(d.last(), times[i], w));
            assert(trim_front(d, times[i], w) == d);
        }
        assert(window_events(b, sender, times[i], w) == d);
    }
}

/// The rate limit admits exactly the first `limit` events of a sender within
/// one window: starting from no recent events, when every check of the
/// sender falls within the window of the first, the `i`-th check finds
/// `min(i, limit)` events and so is accepted exactly when `i < limit`; the
/// refused ones use no quota.
pub proof fn law_rate_limit_admits_first_limit(
    buckets: Seq<Map<Seq<char>, Vec<u64>>>,
    sender: Seq<char>,
    config: RateLimitConfig,
    times: Seq<u64>,
)
    requires
        buckets.len() == times.len() + 1,
        times.len() > 0,
        window_events(buckets[0], sender, times[0], config.window_ms).len() == 0,
        forall|k: int|
            0 <= k < times.len() ==> checked_bucket(
                #[trigger] buckets[k],
                buckets[k + 1],
                sender,
                config,
                times[k],
            ),
        forall|k: int| 0 <= k < times.len() ==> times[0] <= #[trigger] times[k] <= times[0] + config.window_ms,
    ensures
        forall|i: int|
            0 <= i < times.len() ==> {
                &&& (#[trigger] window_events(buckets[i], sender, times[i], config.window_ms)).len() == if i
                    < config.limit {
                    i
                } else {
                    config.limit as int
                }
                &&& (window_events(buckets[i], sender, times[i], config.window_ms).len() < config.limit
                    <==> i < config.limit)
            },
{
    assert forall|i: int| 0 <= i < times.len() implies {
        &&& (#[trigger] window_events(buckets[i], sender, times[i], config.window_ms)).len() == if i
            < config.limit {
            i
        } else {
            config.limit as int
        }
        &&& (window_events(buckets[i], sender, times[i], config.window_ms).len() < config.limit <==> i
            < config.limit)
    } by {
        lemma_rate_window(buckets, sender, config, times, i);
    }
}

/// A mode's handling of a message never touches the per-sender activity
/// the session has recorded.
proof fn lemma_mode_keeps_activity(
    f: ModeFactory,
    before: Session,
    after: Session,
    r: Result<ModeResponse, MacpError>,
    env: Envelope,
    payload: MessagePayload,
    j: PolicyJudgments,
    now: i64,
)
    requires
        factory_outcome_at(f, before, after, r, env, payload, j, now),
    ensures
        factory_outcome(f, before, after, r, env, payload, j),
        after.participant_message_counts == before.participant_message_counts,
        after.participant_last_seen == before.participant_last_seen,
{
    match f {
        ModeFactory::Handoff => {
            assert(crate::mode::handoff::handoff_outcome(before, after, r, env, payload, now));
        },
        _ => {},
    }
}

/// An accepted message replays as it was accepted: its log entry, replayed
/// on the session as it stood before the message with the same decoded
/// payload and policy comparisons, is accepted again and leaves the session
/// as live processing left it, apart from the per-sender activity counters,
/// which replay does not rebuild. This holds for envelopes that carry a
/// protocol version, a timestamp and a message id: replay reads a missing
/// version as `1.0`, a missing timestamp as the time of receipt, and records
/// no empty id.
pub proof fn law_accepted_message_replays_from_its_log_entry(
    rt: Runtime,
    env: Envelope,
    payload: MessagePayload,
    j: PolicyJudgments,
    now: i64,
    mid: Session,
    rm: Result<ModeResponse, MacpError>,
    after: Session,
    e: LogEntry,
)
    requires
        message_decision(rt, env, payload, j, now) == Ok::<MessagePlan, MacpError>(MessagePlan::Accept),
        factory_outcome_at(
            rt.mode_registry@[rt.sessions@[env.session_id@].mode@].factory,
            rt.sessions@[env.session_id@],
            mid,
            rm,
            env,
            payload,
            j,
            now,
        ),
        rm is Ok,
        recorded(mid, after, env, now),
        e.entry_kind == EntryKind::Incoming,
        e.message_id@ == env.message_id@,
        e.sender@ == env.sender@,
        e.message_type@ == env.message_type@,
        e.raw_payload@ == env.payload@,
        e.mode@ == env.mode@,
        e.macp_version@ == env.macp_version@,
        e.timestamp_unix_ms == env.timestamp_unix_ms,
        env.macp_version@.len() > 0,
        env.timestamp_unix_ms != 0,
        env.message_id@.len() > 0,
    ensures
        ({
            let before = rt.sessions@[env.session_id@];
            let f = rt.mode_registry@[before.mode@].factory;
            let replayed = Session {
                participant_message_counts: before.participant_message_counts,
                participant_last_seen: before.participant_last_seen,
                ..after
            };
            replay_step(f, before, replayed, Ok::<(), MacpError>(()), env.session_id@, e, payload, j)
        }),
{
    let before = rt.sessions@[env.session_id@];
    let f = rt.mode_registry@[before.mode@].factory;
    let replayed = Session {
        participant_message_counts: before.participant_message_counts,
        participant_last_seen: before.participant_last_seen,
        ..after
    };
    lemma_mode_keeps_activity(f, before, mid, rm, env, payload, j, now);
    assert(replayed == Session { seen_message_ids: replayed.seen_message_ids, ..mid });
    assert(marked(mid, replayed, e.message_id@));
    assert(crate::replay::replay_envelope(env, before.mode@, env.session_id@, e));
    assert(replay_outcome(f, before, env, mid, rm, replayed, Ok::<(), MacpError>(()), env.session_id@, e, payload, j));
    reveal(replay_step);
}

/// Live processing accepted `env` on `before`, leaving `after`: the session
/// was open, the sender authorized, the mode accepted the message, and its
/// id and the sender's activity were recorded.
pub open spec fn accepted_live(
    f: ModeFactory,
    before: Session,
    after: Session,
    env: Envelope,
    payload: MessagePayload,
    j: PolicyJudgments,
    now: i64,
) -> bool {
    &&& before.state == SessionState::Open
    &&& factory_sender_allowed(f, before, env)
    &&& exists|mid: Session, rm: Result<ModeResponse, MacpError>|
        #[trigger] factory_outcome_at(f, before, mid, rm, env, payload, j, now) && rm is Ok && recorded(
            mid,
            after,
            env,
            now,
        )
}

/// `e` is the log entry of `env` (as `make_incoming_entry` writes it), and
/// `env` carries what replay needs to read it back unchanged in a session of
/// mode `mode` and id `session_id`: a protocol version, a timestamp, a message
/// id and the session's mode.
pub open spec fn logged_faithfully(e: LogEntry, env: Envelope, mode: Seq<char>, session_id: Seq<char>) -> bool {
    &&& e.entry_kind == EntryKind::Incoming
    &&& e.message_id@ == env.message_id@
    &&& e.sender@ == env.sender@
    &&& e.message_type@ == env.message_type@
    &&& e.raw_payload@ == env.payload@
    &&& e.mode@ == env.mode@
    &&& e.macp_version@ == env.macp_version@
    &&& e.timestamp_unix_ms == env.timestamp_unix_ms
    &&& env.macp_version@.len() > 0
    &&& env.timestamp_unix_ms != 0
    &&& env.message_id@.len() > 0
    &&& env.mode@ == mode
    &&& env.session_id@ == session_id
}

/// `b` holds what `a` holds apart from the seen ids, compared by content:
/// the same lifecycle state, deadlines, mode state and resolution; texts with
/// the same characters; the same participants; and an equal policy. The
/// per-sender activity is not compared.
pub open spec fn same_bindings_content(a: Session, b: Session) -> bool {
    &&& b.state == a.state
    &&& b.ttl_expiry == a.ttl_expiry
    &&& b.ttl_ms == a.ttl_ms
    &&& b.started_at_unix_ms == a.started_at_unix_ms
    &&& b.resolution == a.resolution
    &&& b.mode_state == a.mode_state
    &&& b.session_id@ == a.session_id@
    &&& b.mode@ == a.mode@
    &&& b.participants@ == a.participants@
    &&& b.intent@ == a.intent@
    &&& b.mode_version@ == a.mode_version@
    &&& b.configuration_version@ == a.configuration_version@
    &&& b.policy_version@ == a.policy_version@
    &&& b.context@ == a.context@
    &&& b.roots@ == a.roots@
    &&& b.initiator_sender@ == a.initiator_sender@
    &&& match a.policy_definition {
        None => b.policy_definition is None,
        Some(x) => b.policy_definition matches Some(y) && same_policy(x, y),
    }
}

/// `b` holds what `a` holds, compared by content, seen ids included (by
/// their texts); the per-sender activity is not compared.
pub open spec fn same_content(a: Session, b: Session) -> bool {
    &&& same_bindings_content(a, b)
    &&& texts(b.seen_message_ids@) == texts(a.seen_message_ids@)
}

/// `b` with `a`'s lifecycle state, mode state and resolution.
pub open spec fn transplant(a: Session, b: Session) -> Session {
    Session { state: a.state, mode_state: a.mode_state, resolution: a.resolution, ..b }
}

proof fn lemma_decision_same_content(
    before: Session,
    after: Session,
    r: Result<ModeResponse, MacpError>,
    env: Envelope,
    payload: MessagePayload,
    j: PolicyJudgments,
    other: Session,
)
    requires
        crate::mode::decision::decision_outcome(before, after, r, env, payload, j),
        same_content(before, other),
    ensures
        crate::mode::decision::decision_outcome(other, transplant(after, other), r, env, payload, j),
        crate::mode::decision::decision_sender_allowed(other, env) == crate::mode::decision::decision_sender_allowed(before, env),
{
}

proof fn lemma_proposal_same_content(
    before: Session,
    after: Session,
    r: Result<ModeResponse, MacpError>,
    env: Envelope,
    payload: MessagePayload,
    j: PolicyJudgments,
    other: Session,
)
    requires
        crate::mode::proposal::proposal_outcome(before, after, r, env, payload, j),
        same_content(before, other),
    ensures
        crate::mode::proposal::proposal_outcome(other, transplant(after, other), r, env, payload, j),
        crate::mode::proposal::proposal_sender_allowed(other, env) == crate::mode::proposal::proposal_sender_allowed(before, env),
{
}

proof fn lemma_task_same_content(
    before: Session,
    after: Session,
    r: Result<ModeResponse, MacpError>,
    env: Envelope,
    payload: MessagePayload,
    j: PolicyJudgments,
    other: Session,
)
    requires
        crate::mode::task::task_outcome(before, after, r, env, payload, j),
        same_content(before, other),
    ensures
        crate::mode::task::task_outcome(other, transplant(after, other), r, env, payload, j),
        crate::mode::task::task_sender_allowed(other, env) == crate::mode::task::task_sender_allowed(before, env),
{
}

proof fn lemma_quorum_same_content(
    before: Session,
    after: Session,
    r: Result<ModeResponse, MacpError>,
    env: Envelope,
    payload: MessagePayload,
    j: PolicyJudgments,
    other: Session,
)
    requires
        crate::mode::quorum::quorum_outcome(before, after, r, env, payload, j),
        same_content(before, other),
    ensures
        crate::mode::quorum::quorum_outcome(other, transplant(after, other), r, env, payload, j),
        crate::mode::quorum::quorum_sender_allowed(other, env) == crate::mode::quorum::quorum_sender_allowed(before, env),
{
}

proof fn lemma_multi_round_same_content(
    before: Session,
    after: Session,
    r: Result<ModeResponse, MacpError>,
    env: Envelope,
    payload: MessagePayload,
    j: PolicyJudgments,
    other: Session,
)
    requires
        crate::mode::multi_round::multi_round_outcome(before, after, r, env, payload),
        same_content(before, other),
    ensures
        crate::mode::multi_round::multi_round_outcome(other, transplant(after, other), r, env, payload),
{
}

proof fn lemma_handoff_same_content(
    before: Session,
    after: Session,
    r: Result<ModeResponse, MacpError>,
    env: Envelope,
    payload: MessagePayload,
    now: i64,
    other: Session,
)
    requires
        crate::mode::handoff::handoff_outcome(before, after, r, env, payload, now),
        same_content(before, other),
    ensures
        crate::mode::handoff::handoff_outcome(other, transplant(after, other), r, env, payload, now),
        crate::mode::handoff::handoff_sender_allowed(other, env) == crate::mode::handoff::handoff_sender_allowed(before, env),
{
}

proof fn lemma_passthrough_same_content(
    allowed: Seq<String>,
    before: Session,
    after: Session,
    r: Result<ModeResponse, MacpError>,
    env: Envelope,
    payload: MessagePayload,
    other: Session,
)
    requires
        crate::mode::passthrough::passthrough_outcome(allowed, before, after, r, env, payload),
        same_content(before, other),
    ensures
        crate::mode::passthrough::passthrough_outcome(allowed, other, transplant(after, other), r, env, payload),
        crate::mode::passthrough::passthrough_sender_allowed(other, env)
            == crate::mode::passthrough::passthrough_sender_allowed(before, env),
{
}

/// What a mode does with a message depends on the session only by content.
proof fn lemma_outcome_same_content(
    f: ModeFactory,
    before: Session,
    after: Session,
    r: Result<ModeResponse, MacpError>,
    env: Envelope,
    payload: MessagePayload,
    j: PolicyJudgments,
    other: Session,
)
    requires
        factory_outcome(f, before, after, r, env, payload, j),
        same_content(before, other),
    ensures
        factory_outcome(f, other, transplant(after, other), r, env, payload, j),
        factory_sender_allowed(f, other, env) == factory_sender_allowed(f, before, env),
{
    match f {
        ModeFactory::Decision => lemma_decision_same_content(before, after, r, env, payload, j, other),
        ModeFactory::Proposal => lemma_proposal_same_content(before, after, r, env, payload, j, other),
        ModeFactory::Task => lemma_task_same_content(before, after, r, env, payload, j, other),
        ModeFactory::Handoff => {
            let now = choose|now: i64| #[trigger]
                crate::mode::handoff::handoff_outcome(before, after, r, env, payload, now);
            lemma_handoff_same_content(before, after, r, env, payload, now, other);
        },
        ModeFactory::Quorum => lemma_quorum_same_content(before, after, r, env, payload, j, other),
        ModeFactory::MultiRound => lemma_multi_round_same_content(before, after, r, env, payload, j, other),
        ModeFactory::Passthrough(m) => lemma_passthrough_same_content(
            m.allowed_message_types@,
            before,
            after,
            r,
            env,
            payload,
            other,
        ),
    }
}

proof fn lemma_decision_start_same_content(before: Session, after: Session, r: Result<ModeResponse, MacpError>, other: Session)
    requires
        crate::mode::decision::decision_started(before, after, r),
        same_bindings_content(before, other),
    ensures
        crate::mode::decision::decision_started(other, transplant(after, other), r),
{
}

proof fn lemma_proposal_start_same_content(before: Session, after: Session, r: Result<ModeResponse, MacpError>, other: Session)
    requires
        crate::mode::proposal::proposal_started(before, after, r),
        same_bindings_content(before, other),
    ensures
        crate::mode::proposal::proposal_started(other, transplant(after, other), r),
{
}

proof fn lemma_task_start_same_content(before: Session, after: Session, r: Result<ModeResponse, MacpError>, other: Session)
    requires
        crate::mode::task::task_started(before, after, r),
        same_bindings_content(before, other),
    ensures
        crate::mode::task::task_started(other, transplant(after, other), r),
{
}

proof fn lemma_handoff_start_same_content(before: Session, after: Session, r: Result<ModeResponse, MacpError>, other: Session)
    requires
        crate::mode::handoff::handoff_started(before, after, r),
        same_bindings_content(before, other),
    ensures
        crate::mode::handoff::handoff_started(other, transplant(after, other), r),
{
}

proof fn lemma_quorum_start_same_content(before: Session, after: Session, r: Result<ModeResponse, MacpError>, other: Session)
    requires
        crate::mode::quorum::quorum_started(before, after, r),
        same_bindings_content(before, other),
    ensures
        crate::mode::quorum::quorum_started(other, transplant(after, other), r),
{
}

proof fn lemma_multi_round_start_same_content(before: Session, after: Session, r: Result<ModeResponse, MacpError>, other: Session)
    requires
        crate::mode::multi_round::multi_round_started(before, after, r),
        same_bindings_content(before, other),
    ensures
        crate::mode::multi_round::multi_round_started(other, transplant(after, other), r),
{
}

/// Starting a session depends on the session only by content.
proof fn lemma_started_same_content(
    f: ModeFactory,
    before: Session,
    after: Session,
    r: Result<ModeResponse, MacpError>,
    other: Session,
)
    requires
        factory_started(f, before, after, r),
        same_bindings_content(before, other),
    ensures
        factory_started(f, other, transplant(after, other), r),
        after == transplant(after, before),
{
    match f {
        ModeFactory::Decision => lemma_decision_start_same_content(before, after, r, other),
        ModeFactory::Proposal => lemma_proposal_start_same_content(before, after, r, other),
        ModeFactory::Task => lemma_task_start_same_content(before, after, r, other),
        ModeFactory::Handoff => lemma_handoff_start_same_content(before, after, r, other),
        ModeFactory::Quorum => lemma_quorum_start_same_content(before, after, r, other),
        ModeFactory::MultiRound => lemma_multi_round_start_same_content(before, after, r, other),
        ModeFactory::Passthrough(_) => {},
    }
}

/// Sessions whose seen ids have the same texts have seen the same ids.
proof fn lemma_same_texts_same_seen(a: Session, b: Session, id: Seq<char>)
    requires
        texts(a.seen_message_ids@) == texts(b.seen_message_ids@),
    ensures
        has_seen(a, id) == has_seen(b, id),
{
    let ta = texts(a.seen_message_ids@);
    let tb = texts(b.seen_message_ids@);
    assert(ta.len() == a.seen_message_ids@.len());
    assert(tb.len() == b.seen_message_ids@.len());
    if has_seen(a, id) {
        let i = choose|i: int| 0 <= i < a.seen_message_ids@.len() && (#[trigger] a.seen_message_ids@[i])@ == id;
        assert(ta[i] == id);
        assert(b.seen_message_ids@[i]@ == tb[i]);
    }
    if has_seen(b, id) {
        let i = choose|i: int| 0 <= i < b.seen_message_ids@.len() && (#[trigger] b.seen_message_ids@[i])@ == id;
        assert(tb[i] == id);
        assert(a.seen_message_ids@[i]@ == ta[i]);
    }
}

/// Replaying the log of messages that live processing accepted, in order,
/// can reach a session with the content live processing reached, when replay
/// starts from a session with the content of the one they were accepted on:
/// `live[i]` is the live session before entry `i` (for `i` from `k`), and
/// `live[entries.len()]` the live session after the last.
pub proof fn law_accepted_messages_replay_to_live_content(
    f: ModeFactory,
    session_id: Seq<char>,
    entries: Seq<LogEntry>,
    payloads: Seq<MessagePayload>,
    envs: Seq<Envelope>,
    js: Seq<PolicyJudgments>,
    nows: Seq<i64>,
    live: Seq<Session>,
    k: int,
    start: Session,
)
    requires
        0 <= k <= entries.len(),
        payloads.len() == entries.len(),
        envs.len() == entries.len(),
        js.len() == entries.len(),
        nows.len() == entries.len(),
        live.len() == entries.len() + 1,
        same_content(live[k], start),
        forall|i: int|
            k <= i < entries.len() ==> #[trigger] accepted_live(
                f,
                live[i],
                live[i + 1],
                envs[i],
                payloads[i],
                js[i],
                nows[i],
            ) && logged_faithfully(entries[i], envs[i], live[i].mode@, session_id),
    ensures
        exists|out: Session|
            same_content(live[entries.len() as int], out) && #[trigger] replays(
                f,
                session_id,
                entries,
                payloads,
                k,
                start,
                Ok::<Session, MacpError>(out),
            ),
    decreases entries.len() - k,
{
    if k == entries.len() {
        assert(replays(f, session_id, entries, payloads, k, start, Ok::<Session, MacpError>(start)));
    } else {
        let before = live[k];
        let after = live[k + 1];
        let env = envs[k];
        let e = entries[k];
        assert(accepted_live(f, before, after, env, payloads[k], js[k], nows[k]));
        let (mid, rm) = choose|mid: Session, rm: Result<ModeResponse, MacpError>|
            #[trigger] factory_outcome_at(f, before, mid, rm, env, payloads[k], js[k], nows[k]) && rm is Ok
                && recorded(mid, after, env, nows[k]);
        lemma_mode_keeps_activity(f, before, mid, rm, env, payloads[k], js[k], nows[k]);
        lemma_outcome_same_content(f, before, mid, rm, env, payloads[k], js[k], start);
        let m2 = transplant(mid, start);
        let next = Session { seen_message_ids: after.seen_message_ids, ..m2 };
        lemma_same_texts_same_seen(mid, m2, e.message_id@);
        assert(marked(m2, next, e.message_id@));
        assert(crate::replay::replay_envelope(env, start.mode@, session_id, e));
        assert(replay_outcome(f, start, env, m2, rm, next, Ok::<(), MacpError>(()), session_id, e, payloads[k], js[k]));
        assert(replay_step(f, start, next, Ok::<(), MacpError>(()), session_id, e, payloads[k], js[k])) by {
            reveal(replay_step);
        }
        assert(same_content(after, next));
        law_accepted_messages_replay_to_live_content(f, session_id, entries, payloads, envs, js, nows, live, k + 1, next);
        let out = choose|out: Session|
            same_content(live[entries.len() as int], out) && #[trigger] replays(
                f,
                session_id,
                entries,
                payloads,
                k + 1,
                next,
                Ok::<Session, MacpError>(out),
            );
        assert(replays(f, session_id, entries, payloads, k, start, Ok::<Session, MacpError>(out)));
    }
}

proof fn lemma_start_index_first(entries: Seq<LogEntry>)
    requires
        entries.len() > 0,
        crate::replay::is_session_start(entries[0]),
    ensures
        start_index(entries) == Some(0int),
    decreases entries.len(),
{
    if entries.len() > 1 {
        assert(entries.drop_last()[0] == entries[0]);
        lemma_start_index_first(entries.drop_last());
    } else {
        assert(start_index(entries.drop_last()) is None);
        assert(entries.last() == entries[0]);
    }
}

/// A session rebuilt from its log can be the session live processing built.
/// The log holds a `SessionStart` that live processing accepted (received at
/// `now`, creating `started`) and after it the messages live processing then
/// accepted, each written as received; `live[i]` is the live session before
/// entry `i` (from `live[1] == started`) and `live[entries.len()]` the live
/// session after the last. Replay with the policy registry the start was
/// resolved in can end in a session with the content of the live one (the
/// per-sender activity aside, which replay does not rebuild). This holds
/// where replay reads the log as live processing saw it: the start's payload
/// is not empty and names its policy version (replay binds no policy to a
/// start that names none, where live processing binds the default), and the
/// start envelope's timestamp is unset or the time of receipt (replay counts
/// the TTL from the receipt).
pub proof fn law_log_replays_to_live_session(
    rt: Runtime,
    env: Envelope,
    payload: MessagePayload,
    max_open_sessions: Option<usize>,
    now: i64,
    base: Session,
    rm: Result<ModeResponse, MacpError>,
    entries: Seq<LogEntry>,
    payloads: Seq<MessagePayload>,
    envs: Seq<Envelope>,
    js: Seq<PolicyJudgments>,
    nows: Seq<i64>,
    live: Seq<Session>,
    no_ids: Vec<String>,
)
    requires
        start_decision(rt, env, payload, max_open_sessions, now) matches StartDecision::Create {
            factory,
            ttl_ms,
            policy_version,
            policy,
        } && started_by_mode(
            factory,
            env,
            payload->SessionStart_0,
            ttl_ms,
            policy_version,
            policy,
            now,
            base,
            live[1],
            rm,
        ),
        rm is Ok,
        entries.len() >= 1,
        payloads.len() == entries.len(),
        envs.len() == entries.len(),
        js.len() == entries.len(),
        nows.len() == entries.len(),
        live.len() == entries.len() + 1,
        entries[0].entry_kind == EntryKind::Incoming,
        entries[0].message_type@ == "SessionStart"@,
        entries[0].message_id@ == env.message_id@,
        entries[0].sender@ == env.sender@,
        entries[0].raw_payload@ == env.payload@,
        entries[0].mode@ == env.mode@,
        entries[0].received_at_ms == now,
        payloads[0] == payload,
        env.payload@.len() > 0,
        (payload->SessionStart_0).policy_version@.len() > 0,
        env.timestamp_unix_ms <= 0 || env.timestamp_unix_ms == now,
        no_ids@.len() == 0,
        forall|i: int|
            1 <= i < entries.len() ==> #[trigger] accepted_live(
                rt.mode_registry@[env.mode@].factory,
                live[i],
                live[i + 1],
                envs[i],
                payloads[i],
                js[i],
                nows[i],
            ) && logged_faithfully(entries[i], envs[i], live[i].mode@, env.session_id@),
    ensures
        exists|out: Session|
            same_content(live[entries.len() as int], out) && #[trigger] replay_result(
                rt.mode_registry@,
                Some(rt.policy_registry@),
                env.session_id@,
                entries,
                payloads,
                Checkpoint::Absent,
                Ok::<Session, MacpError>(out),
            ),
{
    let reg = rt.mode_registry@;
    let policies = Some(rt.policy_registry@);
    let sid = env.session_id@;
    let e = entries[0];
    let p = payload->SessionStart_0;
    let f = reg[env.mode@].factory;
    let started = live[1];
    let base_r = Session { seen_message_ids: no_ids, ..base };
    lemma_started_same_content(f, base, started, rm, base_r);
    let mid = transplant(started, base_r);
    assert(started == Session { seen_message_ids: started.seen_message_ids, ..mid });
    assert(texts(started.seen_message_ids@) =~= texts(mid.seen_message_ids@).push(e.message_id@));
    assert(!has_seen(mid, e.message_id@));
    assert(marked(mid, started, e.message_id@));
    assert(begin_error(reg, e, payloads[0]) is None);
    assert(begun(reg, policies, sid, e, payloads[0], base_r, started, rm));
    lemma_start_index_first(entries);
    law_accepted_messages_replay_to_live_content(f, sid, entries, payloads, envs, js, nows, live, 1, started);
    let out = choose|out: Session|
        same_content(live[entries.len() as int], out) && #[trigger] replays(
            f,
            sid,
            entries,
            payloads,
            1,
            started,
            Ok::<Session, MacpError>(out),
        );
    assert(replay_result(reg, policies, sid, entries, payloads, Checkpoint::Absent, Ok::<Session, MacpError>(out)));
}

/// Resuming from a checkpoint can also rebuild the live session: when the
/// log's last checkpoint holds a session with the content the live session
/// had when the checkpoint was written (at position `c`), and every entry
/// after it is a message live processing then accepted, written as received,
/// replay can end in a session with the content of the live one (the
/// per-sender activity aside). `live[i]` is the live session before entry `i`
/// (for `i` after `c`) and `live[entries.len()]` the live session after the last.
pub proof fn law_checkpoint_replays_to_live_session(
    reg: Map<Seq<char>, ModeRegistration>,
    policies: Option<Map<Seq<char>, PolicyDefinition>>,
    session_id: Seq<char>,
    entries: Seq<LogEntry>,
    payloads: Seq<MessagePayload>,
    restored: Session,
    envs: Seq<Envelope>,
    js: Seq<PolicyJudgments>,
    nows: Seq<i64>,
    live: Seq<Session>,
)
    requires
        checkpoint_index(entries) is Some,
        resumable(restored),
        reg.contains_key(restored.mode@),
        payloads.len() == entries.len(),
        envs.len() == entries.len(),
        js.len() == entries.len(),
        nows.len() == entries.len(),
        live.len() == entries.len() + 1,
        same_content(live[checkpoint_index(entries)->0 + 1], restored),
        live[checkpoint_index(entries)->0 + 1].session_id@ == session_id,
        forall|i: int|
            checkpoint_index(entries)->0 < i < entries.len() ==> #[trigger] accepted_live(
                reg[restored.mode@].factory,
                live[i],
                live[i + 1],
                envs[i],
                payloads[i],
                js[i],
                nows[i],
            ) && logged_faithfully(entries[i], envs[i], live[i].mode@, session_id),
    ensures
        exists|out: Session|
            same_content(live[entries.len() as int], out) && #[trigger] replay_result(
                reg,
                policies,
                session_id,
                entries,
                payloads,
                Checkpoint::Restored(restored),
                Ok::<Session, MacpError>(out),
            ),
{
    lemma_checkpoint_index_nonnegative(entries);
    let c = checkpoint_index(entries)->0;
    let f = reg[restored.mode@].factory;
    let c2 = Session { session_id: live[c + 1].session_id, ..restored };
    law_accepted_messages_replay_to_live_content(f, session_id, entries, payloads, envs, js, nows, live, c + 1, c2);
    let out = choose|out: Session|
        same_content(live[entries.len() as int], out) && #[trigger] replays(
            f,
            session_id,
            entries,
            payloads,
            c + 1,
            c2,
            Ok::<Session, MacpError>(out),
        );
    assert(replay_result(reg, policies, session_id, entries, payloads, Checkpoint::Restored(restored), Ok::<Session, MacpError>(out)));
}

/// Unregistering an extension mode undoes registering it: after a
/// successful `register_extension` of `d`, `unregister_extension` of its
/// name succeeds and leaves the registry as it was before the registration.
pub proof fn law_unregister_undoes_register_extension(
    before: Map<Seq<char>, ModeRegistration>,
    d: ModeDescriptor,
    registered: Map<Seq<char>, ModeRegistration>,
)
    requires
        descriptor_error(d) is None,
        !before.contains_key(d.mode@),
        registered == before.insert(d.mode@, registered[d.mode@]),
        extension_registration(registered[d.mode@], d),
    ensures
        registered.contains_key(d.mode@),
        !registered[d.mode@].builtin,
        !registered[d.mode@].standards_track,
        registered.remove(d.mode@) == before,
{
    assert(registered.remove(d.mode@) =~= before);
}

/// Unregistering a policy undoes registering it: after a successful
/// `register` of `d`, `unregister` of its id succeeds and leaves the
/// registry as it was before the registration.
pub proof fn law_unregister_undoes_register_policy(
    before: Map<Seq<char>, PolicyDefinition>,
    d: PolicyDefinition,
)
    requires
        definition_error(d) is None,
        !before.contains_key(d.policy_id@),
    ensures
        d.policy_id@ != "policy.default"@,
        before.insert(d.policy_id@, d).contains_key(d.policy_id@),
        before.insert(d.policy_id@, d).remove(d.policy_id@) == before,
{
    assert(before.insert(d.policy_id@, d).remove(d.policy_id@) =~= before);
}

/// A mode's handling of a message never touches the ids the session has seen.
proof fn lemma_mode_keeps_seen_ids(
    f: ModeFactory,
    before: Session,
    after: Session,
    r: Result<ModeResponse, MacpError>,
    env: Envelope,
    payload: MessagePayload,
    j: PolicyJudgments,
)
    requires
        factory_outcome(f, before, after, r, env, payload, j),
    ensures
        after.seen_message_ids == before.seen_message_ids,
{
    match f {
        ModeFactory::Handoff => {
            let now = choose|now: i64| #[trigger]
                crate::mode::handoff::handoff_outcome(before, after, r, env, payload, now);
            assert(crate::mode::handoff::handoff_outcome(before, after, r, env, payload, now));
        },
        _ => {},
    }
}

/// Recording an id keeps every id seen before and adds the recorded one.
proof fn lemma_marked_keeps_seen_ids(a: Session, b: Session, id: Seq<char>, x: Seq<char>)
    requires
        marked_if_named(a, b, id),
    ensures
        has_seen(a, x) ==> has_seen(b, x),
        id.len() > 0 ==> has_seen(b, id),
{
    if id.len() > 0 {
        let ta = texts(a.seen_message_ids@);
        let tb = texts(b.seen_message_ids@);
        assert(ta.len() == a.seen_message_ids@.len());
        assert(tb.len() == b.seen_message_ids@.len());
        if has_seen(a, x) {
            let i = choose|i: int| 0 <= i < a.seen_message_ids@.len() && (#[trigger] a.seen_message_ids@[i])@ == x;
            assert(ta[i] == x);
            assert(tb[i] == x);
            assert(b.seen_message_ids@[i]@ == x);
        }
        if has_seen(a, id) {
            let i = choose|i: int| 0 <= i < a.seen_message_ids@.len() && (#[trigger] a.seen_message_ids@[i])@ == id;
            assert(ta[i] == id);
            assert(tb[i] == id);
            assert(b.seen_message_ids@[i]@ == id);
        } else {
            let k = ta.len() as int;
            assert(tb[k] == id);
            assert(b.seen_message_ids@[k]@ == id);
        }
    }
}

/// One replayed log entry that succeeds keeps the ids seen so far and, for
/// an accepted envelope with an id, records its id.
proof fn lemma_replay_step_keeps_seen_ids(
    f: ModeFactory,
    before: Session,
    after: Session,
    r: Result<(), MacpError>,
    session_id: Seq<char>,
    e: LogEntry,
    payload: MessagePayload,
    j: PolicyJudgments,
    x: Seq<char>,
)
    requires
        replay_step(f, before, after, r, session_id, e, payload, j),
        r is Ok,
    ensures
        has_seen(before, x) ==> has_seen(after, x),
        e.entry_kind == EntryKind::Incoming && e.message_id@.len() > 0 ==> has_seen(after, e.message_id@),
{
    reveal(replay_step);
    match e.entry_kind {
        EntryKind::Incoming => {
            if before.state != SessionState::Open {
                lemma_marked_keeps_seen_ids(before, after, e.message_id@, x);
            } else {
                let (env, mid, rm) = choose|env: Envelope, mid: Session, rm: Result<ModeResponse, MacpError>|
                    #[trigger] replay_outcome(f, before, env, mid, rm, after, r, session_id, e, payload, j);
                lemma_mode_keeps_seen_ids(f, before, mid, rm, env, payload, j);
                assert(has_seen(before, x) ==> has_seen(mid, x));
                lemma_marked_keeps_seen_ids(mid, after, e.message_id@, x);
            }
        },
        _ => {},
    }
}

/// Replay reconciles deduplication: a session rebuilt from its log has seen
/// every message id it had seen where replay began, and the id of every
/// accepted envelope replayed, so none of them is accepted twice after a
/// restart.
pub proof fn law_replay_reconciles_seen_ids(
    f: ModeFactory,
    session_id: Seq<char>,
    entries: Seq<LogEntry>,
    payloads: Seq<MessagePayload>,
    i: int,
    s: Session,
    out: Session,
)
    requires
        0 <= i,
        replays(f, session_id, entries, payloads, i, s, Ok::<Session, MacpError>(out)),
    ensures
        forall|x: Seq<char>| has_seen(s, x) ==> #[trigger] has_seen(out, x),
        forall|k: int|
            i <= k < entries.len() && (#[trigger] entries[k]).entry_kind == EntryKind::Incoming
                && entries[k].message_id@.len() > 0 ==> has_seen(out, entries[k].message_id@),
    decreases entries.len() - i,
{
    if i < entries.len() {
        let (j, s2, step) = choose|j: PolicyJudgments, s2: Session, step: Result<(), MacpError>|
            #[trigger] replay_step(f, s, s2, step, session_id, entries[i], payloads[i], j) && match step {
                Err(x) => Ok::<Session, MacpError>(out) == Err::<Session, MacpError>(x),
                Ok(_) => replays(f, session_id, entries, payloads, i + 1, s2, Ok::<Session, MacpError>(out)),
            };
        assert(step is Ok);
        law_replay_reconciles_seen_ids(f, session_id, entries, payloads, i + 1, s2, out);
        assert forall|x: Seq<char>| has_seen(s, x) implies #[trigger] has_seen(out, x) by {
            lemma_replay_step_keeps_seen_ids(f, s, s2, step, session_id, entries[i], payloads[i], j, x);
        }
        lemma_replay_step_keeps_seen_ids(f, s, s2, step, session_id, entries[i], payloads[i], j, Seq::empty());
    }
}

/// A session recovered from its log has seen the ids of the accepted
/// envelopes that replay went through: resumed from a checkpoint, every id
/// the checkpoint had seen and every id logged after it; rebuilt from the
/// `SessionStart`, the start's id and every id logged after the log's first
/// entry.
pub proof fn law_recovered_session_has_seen_logged_ids(
    reg: Map<Seq<char>, ModeRegistration>,
    policies: Option<Map<Seq<char>, PolicyDefinition>>,
    session_id: Seq<char>,
    entries: Seq<LogEntry>,
    payloads: Seq<MessagePayload>,
    cp: Checkpoint,
    out: Session,
)
    requires
        (cp is Absent) <==> checkpoint_index(entries) is None,
        replay_result(reg, policies, session_id, entries, payloads, cp, Ok::<Session, MacpError>(out)),
    ensures
        cp is Restored && resumable(cp->Restored_0) ==> {
            &&& forall|x: Seq<char>| has_seen(cp->Restored_0, x) ==> #[trigger] has_seen(out, x)
            &&& forall|k: int|
                checkpoint_index(entries)->0 < k < entries.len() && (#[trigger] entries[k]).entry_kind
                    == EntryKind::Incoming && entries[k].message_id@.len() > 0 ==> has_seen(
                    out,
                    entries[k].message_id@,
                )
        },
        !(cp is Restored && resumable(cp->Restored_0)) ==> {
            &&& start_index(entries) matches Some(k0) && has_seen(out, entries[k0].message_id@)
            &&& forall|k: int|
                1 <= k < entries.len() && (#[trigger] entries[k]).entry_kind == EntryKind::Incoming
                    && entries[k].message_id@.len() > 0 ==> has_seen(out, entries[k].message_id@)
        },
{
    if cp is Restored && resumable(cp->Restored_0) {
        let c = cp->Restored_0;
        let i = checkpoint_index(entries)->0 + 1;
        let c2 = choose|c2: Session|
            #![trigger replays(reg[c.mode@].factory, session_id, entries, payloads, i, c2, Ok::<Session, MacpError>(out))]
            c2 == (Session { session_id: c2.session_id, ..c }) && c2.session_id@ == session_id && replays(
                reg[c.mode@].factory,
                session_id,
                entries,
                payloads,
                i,
                c2,
                Ok::<Session, MacpError>(out),
            );
        lemma_checkpoint_index_nonnegative(entries);
        law_replay_reconciles_seen_ids(reg[c.mode@].factory, session_id, entries, payloads, i, c2, out);
        assert forall|x: Seq<char>| has_seen(c, x) implies #[trigger] has_seen(out, x) by {
            assert(has_seen(c2, x));
        }
    } else {
        let k0 = start_index(entries)->0;
        let e = entries[k0];
        let (base, after, rm) = choose|base: Session, after: Session, rm: Result<ModeResponse, MacpError>|
            #[trigger] begun(reg, policies, session_id, e, payloads[k0], base, after, rm) && match rm {
                Err(x) => Ok::<Session, MacpError>(out) == Err::<Session, MacpError>(x),
                Ok(_) => replays(reg[e.mode@].factory, session_id, entries, payloads, 1, after, Ok::<Session, MacpError>(out)),
            };
        assert(rm is Ok);
        let mid = choose|mid: Session| #[trigger] crate::mode_registry::factory_started(reg[e.mode@].factory, base, mid, rm)
            && (rm is Ok ==> marked(mid, after, e.message_id@));
        assert(has_seen(after, e.message_id@)) by {
            let ta = texts(mid.seen_message_ids@);
            let tb = texts(after.seen_message_ids@);
            assert(ta.len() == mid.seen_message_ids@.len());
            assert(tb.len() == after.seen_message_ids@.len());
            if has_seen(mid, e.message_id@) {
                let i = choose|i: int| 0 <= i < mid.seen_message_ids@.len() && (#[trigger] mid.seen_message_ids@[i])@
                    == e.message_id@;
                assert(ta[i] == e.message_id@);
                assert(tb[i] == e.message_id@);
                assert(after.seen_message_ids@[i]@ == e.message_id@);
            } else {
                let k = ta.len() as int;
                assert(tb[k] == e.message_id@);
                assert(after.seen_message_ids@[k]@ == e.message_id@);
            }
        }
        law_replay_reconciles_seen_ids(reg[e.mode@].factory, session_id, entries, payloads, 1, after, out);
    }
}

proof fn lemma_checkpoint_index_nonnegative(entries: Seq<LogEntry>)
    ensures
        checkpoint_index(entries) matches Some(i) ==> 0 <= i < entries.len(),
    decreases entries.len(),
{
    if entries.len() > 0 {
        lemma_checkpoint_index_nonnegative(entries.drop_last());
    }
}

/// The default policy never stands in a commitment's way: in every mode,
/// whatever the session's state, its participants and the comparisons'
/// outcomes, its verdict allows.
pub proof fn law_default_policy_allows_commitments(
    policy: PolicyDefinition,
    st: DecisionView,
    participants: Seq<String>,
    j: PolicyJudgments,
    counter_proposals: nat,
    has_output: bool,
    approve: nat,
    reject: nat,
    abstain: nat,
    total_participants: nat,
)
    requires
        is_default_policy(policy),
    ensures
        !decision_verdict(policy, st, participants, j).0,
        !proposal_verdict(policy, counter_proposals).0,
        !task_verdict(policy, has_output).0,
        !handoff_verdict(policy).0,
        !quorum_verdict(policy, approve, reject, abstain, total_participants, j).0,
{
    reveal_strlit("none");
    reveal_strlit("initiator_only");
    assert(!lt(F64_ZERO, policy.rules.quorum.threshold.value_bits));
}

/// Recording an event extends the record: a `record_*` call on counters
/// that hold the record of `events` leaves the record of `events` followed
/// by that event.
pub proof fn law_record_extends_events(events: Seq<(Seq<char>, Counter)>, mode: Seq<char>, c: Counter)
    ensures
        recorded_metrics(events.push((mode, c))) == recorded_metrics(events).insert(
            mode,
            bumped(metrics_of(recorded_metrics(events), mode), c),
        ),
{
    assert(events.push((mode, c)).drop_last() =~= events);
}

/// Each counter counts its events: after recording `events` from no
/// counters, counter `c` of `mode` equals the number of events that bump it
/// (while that number stays below `u64::MAX`, where the counter wraps), and
/// the modes with counters are exactly the modes of the events.
pub proof fn law_counters_count_events(events: Seq<(Seq<char>, Counter)>, mode: Seq<char>, c: Counter)
    requires
        event_count(events, mode, c) < u64::MAX,
    ensures
        counter_value(metrics_of(recorded_metrics(events), mode), c) == event_count(events, mode, c),
        recorded_metrics(events).contains_key(mode) <==> exists|i: int|
            0 <= i < events.len() && (#[trigger] events[i]).0 == mode,
    decreases events.len(),
{
    if events.len() > 0 {
        let rest = events.drop_last();
        let last = events.last();
        assert(event_count(rest, mode, c) <= event_count(events, mode, c));
        law_counters_count_events(rest, mode, c);
        if recorded_metrics(rest).contains_key(mode) {
            let i = choose|i: int| 0 <= i < rest.len() && (#[trigger] rest[i]).0 == mode;
            assert(events[i] == rest[i]);
        }
        if exists|i: int| 0 <= i < events.len() && (#[trigger] events[i]).0 == mode {
            let i = choose|i: int| 0 <= i < events.len() && (#[trigger] events[i]).0 == mode;
            if i < rest.len() {
                assert(rest[i] == events[i]);
            }
        }
    }
}

/// Registering a new mode keeps the listing sorted: the names after are in
/// strictly increasing order, are the names before and the new one, and
/// number one more.
pub proof fn law_registered_names_stay_sorted(
    before: ModeRegistry,
    after: ModeRegistry,
    name: Seq<char>,
    reg: ModeRegistration,
)
    requires
        keys_sorted(before.registrations()),
        keys_sorted(after.registrations()),
        !before@.contains_key(name),
        after@ == before@.insert(name, reg),
    ensures
        names_sorted(all_names(after.registrations())),
        forall|k: Seq<char>|
            all_names(after.registrations()).contains(k) <==> (all_names(before.registrations()).contains(k)
                || k == name),
        all_names(after.registrations()).len() == all_names(before.registrations()).len() + 1,
{
    let a = before.registrations();
    let b = after.registrations();
    lemma_all_names_keys(a);
    lemma_all_names_keys(b);
    lemma_keys_of_sorted(a);
    lemma_keys_of_sorted(b);
    lemma_sorted_unique(a);
    lemma_sorted_unique(b);
    lemma_map_len(a);
    lemma_map_len(b);
    assert(after@.dom() =~= before@.dom().insert(name));
}

/// Under the plurality algorithm, with the other checks off (no evaluation
/// requirement, no vetoes, no required quorum) and at least one vote, a
/// commitment is allowed exactly when approvals strictly outnumber
/// rejections: a tie or more rejections deny it.
pub proof fn law_plurality_needs_more_approvals_than_rejections(
    policy: PolicyDefinition,
    st: DecisionView,
    participants: Seq<String>,
    j: PolicyJudgments,
)
    requires
        policy.schema_version == 1,
        policy.rules.decision.voting.algorithm@ == "plurality"@,
        !policy.rules.decision.evaluation.required_before_voting,
        !policy.rules.decision.objection_handling.block_severity_vetoes,
        !policy.rules.decision.commitment.require_vote_quorum,
        st.votes.len() > 0,
    ensures
        !decision_verdict(policy, st, participants, j).0 <==> count_votes_with(st.votes, "approve"@)
            > count_votes_with(st.votes, "reject"@),
{
    reveal_strlit("plurality");
    reveal_strlit("none");
    reveal_strlit("majority");
    reveal_strlit("supermajority");
    reveal_strlit("unanimous");
    reveal_strlit("weighted");
    assert("plurality"@.len() != "none"@.len());
    assert("plurality"@.len() != "majority"@.len());
    assert("plurality"@.len() != "supermajority"@.len());
    assert("plurality"@[0] != "unanimous"@[0]);
    assert("plurality"@.len() != "weighted"@.len());
}

/// Under the `initiator` criterion, a proposal meets the acceptance
/// criterion exactly when the session initiator's current acceptance names
/// it, whoever proposed it and whatever the other participants accepted.
pub proof fn law_initiator_criterion_asks_only_the_initiator(
    participants: Seq<String>,
    initiator: Seq<char>,
    accepts: Map<Seq<char>, String>,
    proposal_id: Seq<char>,
    proposer: Seq<char>,
)
    ensures
        criterion_met("initiator"@, participants, initiator, accepts, proposal_id, proposer) <==> (
        accepts.contains_key(initiator) && accepts[initiator]@ == proposal_id),
{
    reveal_strlit("initiator");
    reveal_strlit("counterparty");
    assert("initiator"@.len() != "counterparty"@.len());
}

/// Once a task has a terminal report, the report is final: a further
/// TaskComplete, TaskFail or TaskUpdate is refused and leaves the session as
/// it was, and no message, accepted or not, changes the report.
pub proof fn law_task_terminal_report_is_final(
    before: Session,
    after: Session,
    r: Result<ModeResponse, MacpError>,
    env: Envelope,
    payload: MessagePayload,
    j: PolicyJudgments,
)
    requires
        task_outcome(before, after, r, env, payload, j),
        task_view_of(before.mode_state) matches Some(v) && v.terminal_report is Some,
    ensures
        (env.message_type@ == "TaskComplete"@ || env.message_type@ == "TaskFail"@ || env.message_type@
            == "TaskUpdate"@) ==> r is Err && after == before,
        after.mode_state matches ModeState::Task(ns) && ns@.terminal_report == task_view_of(
            before.mode_state,
        )->0.terminal_report,
{
    reveal_strlit("TaskRequest");
    reveal_strlit("TaskAccept");
    reveal_strlit("TaskReject");
    reveal_strlit("TaskUpdate");
    reveal_strlit("TaskComplete");
    reveal_strlit("TaskFail");
    reveal_strlit("Commitment");
    assert("TaskUpdate"@ != "TaskRequest"@ && "TaskComplete"@ != "TaskRequest"@ && "TaskFail"@ != "TaskRequest"@) by {
        assert("TaskUpdate"@.len() != "TaskRequest"@.len());
        assert("TaskComplete"@.len() != "TaskRequest"@.len());
        assert("TaskFail"@.len() != "TaskRequest"@.len());
    }
    assert("TaskUpdate"@ != "TaskAccept"@ && "TaskUpdate"@ != "TaskReject"@ && "TaskUpdate"@ != "Commitment"@) by {
        assert("TaskUpdate"@[4] != "TaskAccept"@[4]);
        assert("TaskUpdate"@[4] != "TaskReject"@[4]);
        assert("TaskUpdate"@[0] != "Commitment"@[0]);
    }
    assert("TaskComplete"@ != "TaskAccept"@ && "TaskComplete"@ != "TaskReject"@ && "TaskComplete"@ != "Commitment"@
        && "TaskComplete"@ != "TaskUpdate"@) by {
        assert("TaskComplete"@.len() != "TaskAccept"@.len());
        assert("TaskComplete"@.len() != "TaskReject"@.len());
        assert("TaskComplete"@.len() != "Commitment"@.len());
        assert("TaskComplete"@.len() != "TaskUpdate"@.len());
    }
    assert("TaskFail"@ != "TaskAccept"@ && "TaskFail"@ != "TaskReject"@ && "TaskFail"@ != "Commitment"@
        && "TaskFail"@ != "TaskUpdate"@ && "TaskFail"@ != "TaskComplete"@) by {
        assert("TaskFail"@.len() != "TaskAccept"@.len());
        assert("TaskFail"@.len() != "TaskReject"@.len());
        assert("TaskFail"@.len() != "Commitment"@.len());
        assert("TaskFail"@.len() != "TaskUpdate"@.len());
        assert("TaskFail"@.len() != "TaskComplete"@.len());
    }
}

/// Every string of at least 22 characters drawn from `A`-`Z`, `a`-`z`,
/// `0`-`9`, `-` and `_` (a base64url token) is an acceptable session id.
pub proof fn law_base64url_tokens_are_acceptable_session_ids(s: Seq<char>)
    requires
        s.len() >= 22,
        forall|i: int|
            0 <= i < s.len() ==> ('A' <= #[trigger] s[i] && s[i] <= 'Z') || ('a' <= s[i] && s[i] <= 'z') || (
            '0' <= s[i] && s[i] <= '9') || s[i] == '-' || s[i] == '_',
    ensures
        session_id_acceptable(s),
{
}

/// An accepted HandoffContext adds one record, carrying the payload's
/// content and its sender, at the end of that handoff's context list; every
/// earlier record of the list stays as it was, and other handoffs' lists do
/// not change.
pub proof fn law_handoff_context_appends(
    before: Session,
    after: Session,
    r: Result<ModeResponse, MacpError>,
    env: Envelope,
    p: HandoffContextPayload,
    now: i64,
)
    requires
        handoff_outcome(before, after, r, env, MessagePayload::HandoffContext(p), now),
        r is Ok,
        handoff_view_of(before.mode_state) is Some,
    ensures
        after.mode_state matches ModeState::Handoff(ns) && {
            let old = handoff_view_of(before.mode_state)->0.contexts;
            let earlier = if old.contains_key(p.handoff_id@) {
                old[p.handoff_id@]
            } else {
                Seq::empty()
            };
            let now_list = ns@.contexts[p.handoff_id@];
            &&& ns@.contexts.contains_key(p.handoff_id@)
            &&& now_list.len() == earlier.len() + 1
            &&& forall|i: int| 0 <= i < earlier.len() ==> now_list[i] == earlier[i]
            &&& now_list.last().context == p.context
            &&& now_list.last().content_type == p.content_type
            &&& now_list.last().sender == env.sender
            &&& forall|h: Seq<char>| h != p.handoff_id@ ==> (ns@.contexts.contains_key(h) == old.contains_key(h)
                && (old.contains_key(h) ==> ns@.contexts[h] == old[h]))
        },
{
}

/// Under the `counterparty` criterion, a proposal meets the acceptance
/// criterion exactly when every participant other than its proposer has a
/// current acceptance naming it.
pub proof fn law_counterparty_criterion_asks_everyone_but_the_proposer(
    participants: Seq<String>,
    initiator: Seq<char>,
    accepts: Map<Seq<char>, String>,
    proposal_id: Seq<char>,
    proposer: Seq<char>,
)
    ensures
        criterion_met("counterparty"@, participants, initiator, accepts, proposal_id, proposer) <==> (forall|i: int|
            0 <= i < participants.len() && (#[trigger] participants[i])@ != proposer ==> accepts.contains_key(
                participants[i]@,
            ) && accepts[participants[i]@]@ == proposal_id),
{
}

/// Under any criterion other than `counterparty` and `initiator` (the
/// default `all_parties`), a proposal meets the acceptance criterion exactly
/// when there are participants and every one of them has a current
/// acceptance naming it.
pub proof fn law_all_parties_criterion_asks_every_participant(
    criterion: Seq<char>,
    participants: Seq<String>,
    initiator: Seq<char>,
    accepts: Map<Seq<char>, String>,
    proposal_id: Seq<char>,
    proposer: Seq<char>,
)
    requires
        criterion != "counterparty"@,
        criterion != "initiator"@,
    ensures
        criterion_met(criterion, participants, initiator, accepts, proposal_id, proposer) <==> (participants.len()
            > 0 && forall|i: int|
            0 <= i < participants.len() ==> accepts.contains_key((#[trigger] participants[i])@)
                && accepts[participants[i]@]@ == proposal_id),
{
}

/// Under the unanimous algorithm, with the other checks off and at least
/// one vote, a commitment is allowed exactly when every participant cast an
/// approving vote and nobody cast a rejecting one.
pub proof fn law_unanimous_needs_every_approval_and_no_rejection(
    policy: PolicyDefinition,
    st: DecisionView,
    participants: Seq<String>,
    j: PolicyJudgments,
)
    requires
        policy.schema_version == 1,
        policy.rules.decision.voting.algorithm@ == "unanimous"@,
        !policy.rules.decision.evaluation.required_before_voting,
        !policy.rules.decision.objection_handling.block_severity_vetoes,
        !policy.rules.decision.commitment.require_vote_quorum,
        st.votes.len() > 0,
    ensures
        !decision_verdict(policy, st, participants, j).0 <==> ((forall|p: int|
            0 <= p < participants.len() ==> exists|i: int|
                0 <= i < st.votes.len() && (#[trigger] st.votes[i]).sender@ == (#[trigger] participants[p])@
                    && st.votes[i].vote@ == "approve"@) && count_votes_with(st.votes, "reject"@) == 0),
{
    reveal_strlit("unanimous");
    reveal_strlit("none");
    reveal_strlit("majority");
    reveal_strlit("supermajority");
    assert("unanimous"@.len() != "none"@.len());
    assert("unanimous"@.len() != "majority"@.len());
    assert("unanimous"@.len() != "supermajority"@.len());
}

} // verus!
