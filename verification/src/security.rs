//! Authentication of callers by bearer token (or, in development, by a
//! declared sender), authorization of modes and of the mode registry, and
//! per-sender rate limits over a sliding window.
//!
//! Request headers, the environment and the clock are the caller's: header
//! values arrive here as strings, token files as parsed entries, and times as
//! milliseconds of a monotonic clock.
use vstd::prelude::*;
use crate::error::MacpError;
use crate::keyed::{lemma_key_index, seq_has_key, seq_key_index};
use crate::mode_registry::clone_strings;
use crate::ordered::OrderedMap;
use crate::pb::Envelope;
use crate::text::{has_prefix, owned, parse_usize, parsed_usize, seq_has, str_eq, str_starts_with, texts, vec_has};

verus! {

/// Who a caller is and what it may do.
#[derive(Debug)]
pub struct AuthIdentity {
    pub sender: String,
    /// The modes the caller may use; `None` allows every mode.
    pub allowed_modes: Option<Vec<String>>,
    pub can_start_sessions: bool,
    pub max_open_sessions: Option<usize>,
    pub can_manage_mode_registry: bool,
}

/// One entry of a token file.
#[derive(Debug)]
pub struct RawIdentity {
    pub token: String,
    pub sender: String,
    pub allowed_modes: Vec<String>,
    pub can_start_sessions: bool,
    pub max_open_sessions: Option<usize>,
    pub can_manage_mode_registry: bool,
}

/// At most `limit` events per sender within `window_ms`.
#[derive(Debug, Clone, Copy, PartialEq, Eq, Structural)]
pub struct RateLimitConfig {
    pub limit: usize,
    pub window_ms: u64,
}

/// The default request-size limit (1 MiB).
pub const DEFAULT_MAX_PAYLOAD_BYTES: usize = 1_048_576;

/// The default session starts per sender per minute.
pub const DEFAULT_SESSION_START_LIMIT: usize = 60;

/// The default session messages per sender per minute.
pub const DEFAULT_MESSAGE_LIMIT: usize = 600;

/// One minute.
pub const MINUTE_MS: u64 = 60_000;

/// `a` is the identity that a token-file entry grants: an empty list of
/// modes allows every mode.
pub open spec fn grants(a: AuthIdentity, raw: RawIdentity) -> bool {
    &&& a.sender@ == raw.sender@
    &&& if raw.allowed_modes@.len() == 0 {
        a.allowed_modes is None
    } else {
        a.allowed_modes matches Some(m) && m@ == raw.allowed_modes@
    }
    &&& a.can_start_sessions == raw.can_start_sessions
    &&& a.max_open_sessions == raw.max_open_sessions
    &&& a.can_manage_mode_registry == raw.can_manage_mode_registry
}

/// Two identities are the same.
pub open spec fn same_identity(a: AuthIdentity, b: AuthIdentity) -> bool {
    &&& a.sender@ == b.sender@
    &&& match (a.allowed_modes, b.allowed_modes) {
        (Some(x), Some(y)) => x@ == y@,
        (None, None) => true,
        _ => false,
    }
    &&& a.can_start_sessions == b.can_start_sessions
    &&& a.max_open_sessions == b.max_open_sessions
    &&& a.can_manage_mode_registry == b.can_manage_mode_registry
}

/// The last entry of `items` with the token, if any: a later entry for a
/// token replaces an earlier one.
pub open spec fn last_with_token(items: Seq<RawIdentity>, token: Seq<char>) -> Option<RawIdentity>
    decreases items.len(),
{
    if items.len() == 0 {
        None
    } else if items.last().token@ == token {
        Some(items.last())
    } else {
        last_with_token(items.drop_last(), token)
    }
}

/// The token a request carries: an `authorization` header of the form
/// `Bearer <token>`, else an `x-macp-token` header.
pub open spec fn bearer_of(authorization: Option<Seq<char>>, x_macp_token: Option<Seq<char>>) -> Option<
    Seq<char>,
> {
    match authorization {
        Some(a) => if has_prefix(a, "Bearer "@) {
            Some(a.subrange(7, a.len() as int))
        } else {
            x_macp_token
        },
        None => x_macp_token,
    }
}

/// `t` is older than the window at `now` (a time after `now` is not).
pub open spec fn expired_at(t: u64, now: u64, window: u64) -> bool {
    now > t && now - t > window
}

/// Every event of a sender lies outside the window: its latest one does,
/// or it has none.
pub open spec fn stale(d: Seq<u64>, now: u64, window: u64) -> bool {
    d.len() == 0 || expired_at(d.last(), now, window)
}

/// The events after dropping the leading ones that are older than the window.
pub open spec fn trim_front(d: Seq<u64>, now: u64, window: u64) -> Seq<u64>
    decreases d.len(),
{
    if d.len() > 0 && expired_at(d[0], now, window) {
        trim_front(d.drop_first(), now, window)
    } else {
        d
    }
}

/// The sender's events in the window once stale senders are forgotten and
/// its own old events dropped.
pub open spec fn window_events(bucket: Map<Seq<char>, Vec<u64>>, sender: Seq<char>, now: u64, window: u64) -> Seq<
    u64,
> {
    if bucket.contains_key(sender) && !stale(bucket[sender]@, now, window) {
        trim_front(bucket[sender]@, now, window)
    } else {
        Seq::empty()
    }
}

/// The bucket after one check of `sender` at `now`: stale senders are
/// forgotten, the sender's old events dropped, and the event recorded if
/// it is within the limit.
pub open spec fn checked_bucket(
    before: Map<Seq<char>, Vec<u64>>,
    after: Map<Seq<char>, Vec<u64>>,
    sender: Seq<char>,
    config: RateLimitConfig,
    now: u64,
) -> bool {
    let d = window_events(before, sender, now, config.window_ms);
    &&& forall|k: Seq<char>|
        k != sender ==> (#[trigger] after.contains_key(k) <==> before.contains_key(k) && !stale(
            before[k]@,
            now,
            config.window_ms,
        ))
    &&& forall|k: Seq<char>| k != sender && #[trigger] after.contains_key(k) ==> after[k] == before[k]
    &&& after.contains_key(sender)
    &&& after[sender]@ == if d.len() >= config.limit {
        d
    } else {
        d.push(now)
    }
}

fn copy_identity(a: &AuthIdentity) -> (r: AuthIdentity)
    ensures
        same_identity(r, *a),
{
    AuthIdentity {
        sender: a.sender.clone(),
        allowed_modes: match &a.allowed_modes {
            Some(m) => Some(clone_strings(m)),
            None => None,
        },
        can_start_sessions: a.can_start_sessions,
        max_open_sessions: a.max_open_sessions,
        can_manage_mode_registry: a.can_manage_mode_registry,
    }
}

/// The identities of a token file, by token; a later entry for a token
/// replaces an earlier one, and an empty list of modes allows every mode.
pub fn parse_identities(items: Vec<RawIdentity>) -> (r: OrderedMap<AuthIdentity>)
    ensures
        forall|t: Seq<char>| #[trigger] r@.contains_key(t) <==> last_with_token(items@, t) is Some,
        forall|t: Seq<char>|
            #[trigger] r@.contains_key(t) ==> grants(r@[t], last_with_token(items@, t)->0),
{
    let ghost all = items@;
    let mut identities: OrderedMap<AuthIdentity> = OrderedMap::new();
    let mut items = items;
    // Walk the entries from the last: the first seen for a token wins.
    let n = items.len();
    let mut i: usize = n;
    assert(all.take(n as int) =~= all);
    while i > 0
        invariant
            i <= n,
            n == all.len(),
            items@ == all.take(i as int),
            forall|t: Seq<char>|
                #[trigger] identities@.contains_key(t) <==> exists|j: int|
                    i <= j < n && (#[trigger] all[j]).token@ == t,
            forall|t: Seq<char>|
                #[trigger] identities@.contains_key(t) ==> last_with_token(all, t) is Some && grants(
                    identities@[t],
                    last_with_token(all, t)->0,
                ),
            forall|t: Seq<char>|
                !identities@.contains_key(t) ==> last_with_token(all, t) == #[trigger] last_with_token(
                    all.take(i as int),
                    t,
                ),
        decreases i,
    {
        let item = items.pop().unwrap();
        proof {
            assert(all.take(i - 1) =~= all.take(i as int).drop_last());
            assert(item == all[i - 1]);
        }
        let ghost before = identities@;
        let ghost token = item.token@;
        if !identities.contains_key(item.token.as_str()) {
            let id = AuthIdentity {
                sender: item.sender,
                allowed_modes: if item.allowed_modes.len() == 0 {
                    None
                } else {
                    Some(item.allowed_modes)
                },
                can_start_sessions: item.can_start_sessions,
                max_open_sessions: item.max_open_sessions,
                can_manage_mode_registry: item.can_manage_mode_registry,
            };
            proof {
                assert(last_with_token(all.take(i as int), token) == Some(item));
            }
            identities.insert(item.token, id);
        }
        i = i - 1;
        proof {
            assert forall|t: Seq<char>|
                #[trigger] identities@.contains_key(t) <==> exists|j: int|
                    i <= j < n && (#[trigger] all[j]).token@ == t by {
                if t == token {
                    assert(all[i as int].token@ == t);
                } else if exists|j: int| i <= j < n && (#[trigger] all[j]).token@ == t {
                    let j = choose|j: int| i <= j < n && (#[trigger] all[j]).token@ == t;
                    assert(j != i);
                    assert(before.contains_key(t));
                }
            }
            assert forall|t: Seq<char>|
                !identities@.contains_key(t) implies last_with_token(all, t) == #[trigger] last_with_token(
                all.take(i as int),
                t,
            ) by {
                assert(t != token);
                assert(last_with_token(all.take(i + 1), t) == last_with_token(all.take(i as int), t));
            }
        }
    }
    proof {
        assert forall|t: Seq<char>| !identities@.contains_key(t) implies last_with_token(all, t) is None by {
            assert(last_with_token(all.take(0), t) is None);
        }
    }
    identities
}

/// The token a request carries, from the values of its `authorization` and
/// `x-macp-token` headers.
pub fn bearer_token(authorization: Option<&str>, x_macp_token: Option<&str>) -> (r: Option<String>)
    ensures
        match bearer_of(
            match authorization {
                Some(a) => Some(a@),
                None => None,
            },
            match x_macp_token {
                Some(x) => Some(x@),
                None => None,
            },
        ) {
            Some(t) => r matches Some(s) && s@ == t,
            None => r is None,
        },
{
    match authorization {
        Some(value) => {
            if str_starts_with(value, "Bearer ") {
                proof {
                    reveal_strlit("Bearer ");
                }
                let n = value.unicode_len();
                return Some(owned(value.substring_char(7, n)));
            }
        },
        None => {},
    }
    match x_macp_token {
        Some(value) => Some(owned(value)),
        None => None,
    }
}

/// A caller's events in one rate-limit category, by sender.
/// The view of an optional setting's text.
pub open spec fn header_text(v: Option<&str>) -> Option<Seq<char>> {
    match v {
        Some(s) => Some(s@),
        None => None,
    }
}

/// A decimal setting's value: its text read as an unsigned number, else `default`.
pub open spec fn setting_or(text: Option<Seq<char>>, default: usize) -> usize {
    match text {
        Some(t) => match parsed_usize(t) {
            Some(v) => v,
            None => default,
        },
        None => default,
    }
}

fn read_setting(text: Option<&str>, default: usize) -> (r: usize)
    ensures
        r == setting_or(header_text(text), default),
{
    match text {
        Some(t) => match parse_usize(t) {
            Some(v) => v,
            None => default,
        },
        None => default,
    }
}

/// Why an authenticated caller's envelope is not admitted, or `None`: a
/// payload over the size limit; a sender other than the caller's identity
/// (an empty sender is the caller's); a `Signal` that names a session or a
/// mode, as signals are ambient.
pub open spec fn admission_error(identity: AuthIdentity, env: Envelope, max_payload_bytes: usize) -> Option<
    MacpError,
> {
    if env.payload@.len() > max_payload_bytes {
        Some(MacpError::PayloadTooLarge)
    } else if env.sender@.len() > 0 && env.sender@ != identity.sender@ {
        Some(MacpError::Forbidden)
    } else if env.message_type@ == "Signal"@ && (env.session_id@.len() > 0 || env.mode@.len() > 0) {
        Some(MacpError::InvalidEnvelope)
    } else {
        None
    }
}

pub struct SecurityLayer {
    /// Identities by bearer token.
    pub identities: OrderedMap<AuthIdentity>,
    /// Whether a request without a token may name its sender in an
    /// `x-macp-agent-id` header (development only).
    pub allow_dev_sender_header: bool,
    pub max_payload_bytes: usize,
    pub session_start_rate: RateLimitConfig,
    pub message_rate: RateLimitConfig,
    /// Times of recent session starts, by sender.
    pub start_events: OrderedMap<Vec<u64>>,
    /// Times of recent session messages, by sender.
    pub message_events: OrderedMap<Vec<u64>>,
}

/// Why `authorize_mode` refuses, or `None`.
pub open spec fn mode_refused(identity: AuthIdentity, mode: Seq<char>, is_session_start: bool) -> bool {
    (is_session_start && !identity.can_start_sessions) || (identity.allowed_modes matches Some(m) && !seq_has(
        m@,
        mode,
    ))
}

impl SecurityLayer {
    /// A layer for development: no tokens, senders may declare themselves,
    /// and no rate limits.
    pub fn dev_mode() -> (r: Self)
        ensures
            r.identities@ == Map::<Seq<char>, AuthIdentity>::empty(),
            r.allow_dev_sender_header,
            r.max_payload_bytes == DEFAULT_MAX_PAYLOAD_BYTES,
            r.session_start_rate == (RateLimitConfig { limit: usize::MAX, window_ms: MINUTE_MS }),
            r.message_rate == (RateLimitConfig { limit: usize::MAX, window_ms: MINUTE_MS }),
            r.start_events@ == Map::<Seq<char>, Vec<u64>>::empty(),
            r.message_events@ == Map::<Seq<char>, Vec<u64>>::empty(),
    {
        SecurityLayer {
            identities: OrderedMap::new(),
            allow_dev_sender_header: true,
            max_payload_bytes: DEFAULT_MAX_PAYLOAD_BYTES,
            session_start_rate: RateLimitConfig { limit: usize::MAX, window_ms: MINUTE_MS },
            message_rate: RateLimitConfig { limit: usize::MAX, window_ms: MINUTE_MS },
            start_events: OrderedMap::new(),
            message_events: OrderedMap::new(),
        }
    }

    /// A layer with the given settings and no recorded events.
    pub fn with_settings(
        identities: OrderedMap<AuthIdentity>,
        allow_dev_sender_header: bool,
        max_payload_bytes: usize,
        session_start_rate: RateLimitConfig,
        message_rate: RateLimitConfig,
    ) -> (r: Self)
        ensures
            r.identities == identities,
            r.allow_dev_sender_header == allow_dev_sender_header,
            r.max_payload_bytes == max_payload_bytes,
            r.session_start_rate == session_start_rate,
            r.message_rate == message_rate,
            r.start_events@ == Map::<Seq<char>, Vec<u64>>::empty(),
            r.message_events@ == Map::<Seq<char>, Vec<u64>>::empty(),
    {
        SecurityLayer {
            identities,
            allow_dev_sender_header,
            max_payload_bytes,
            session_start_rate,
            message_rate,
            start_events: OrderedMap::new(),
            message_events: OrderedMap::new(),
        }
    }

    /// Authenticate a request from the values of its `authorization`,
    /// `x-macp-token` and `x-macp-agent-id` headers. A token must be known;
    /// without one, a declared sender is accepted only in development; and
    /// there is no anonymous fallback.
    /// The layer a deployment's settings describe, each given as the text it
    /// was set to (`None` when unset): the payload limit and the per-minute
    /// session-start and message limits are decimal numbers and fall back to
    /// their defaults when unset or unreadable; the dev sender header is
    /// allowed only when set to `1`.
    pub fn from_env_settings(
        identities: OrderedMap<AuthIdentity>,
        max_payload_bytes: Option<&str>,
        session_start_limit_per_minute: Option<&str>,
        message_limit_per_minute: Option<&str>,
        allow_dev_sender_header: Option<&str>,
    ) -> (r: Self)
        ensures
            r.identities == identities,
            r.max_payload_bytes == setting_or(header_text(max_payload_bytes), DEFAULT_MAX_PAYLOAD_BYTES),
            r.session_start_rate == (RateLimitConfig {
                limit: setting_or(header_text(session_start_limit_per_minute), DEFAULT_SESSION_START_LIMIT),
                window_ms: MINUTE_MS,
            }),
            r.message_rate == (RateLimitConfig {
                limit: setting_or(header_text(message_limit_per_minute), DEFAULT_MESSAGE_LIMIT),
                window_ms: MINUTE_MS,
            }),
            r.allow_dev_sender_header == (header_text(allow_dev_sender_header) == Some("1"@)),
            r.start_events@ == Map::<Seq<char>, Vec<u64>>::empty(),
            r.message_events@ == Map::<Seq<char>, Vec<u64>>::empty(),
    {
        proof {
            reveal_strlit("1");
        }
        let dev = match allow_dev_sender_header {
            Some(v) => str_eq(v, "1"),
            None => false,
        };
        Self::with_settings(
            identities,
            dev,
            read_setting(max_payload_bytes, DEFAULT_MAX_PAYLOAD_BYTES),
            RateLimitConfig {
                limit: read_setting(session_start_limit_per_minute, DEFAULT_SESSION_START_LIMIT),
                window_ms: MINUTE_MS,
            },
            RateLimitConfig { limit: read_setting(message_limit_per_minute, DEFAULT_MESSAGE_LIMIT), window_ms: MINUTE_MS },
        )
    }

    pub fn authenticate_metadata(
        &self,
        authorization: Option<&str>,
        x_macp_token: Option<&str>,
        x_macp_agent_id: Option<&str>,
    ) -> (r: Result<AuthIdentity, MacpError>)
        ensures
            match bearer_of(
                match authorization {
                    Some(a) => Some(a@),
                    None => None,
                },
                match x_macp_token {
                    Some(x) => Some(x@),
                    None => None,
                },
            ) {
                Some(t) => if self.identities@.contains_key(t) {
                    r matches Ok(id) && same_identity(id, self.identities@[t])
                } else {
                    r == Err::<AuthIdentity, MacpError>(MacpError::Unauthenticated)
                },
                None => if self.allow_dev_sender_header && x_macp_agent_id is Some {
                    r matches Ok(id) && id.sender@ == x_macp_agent_id->0@ && id.allowed_modes is None
                        && id.can_start_sessions && id.max_open_sessions is None
                        && id.can_manage_mode_registry
                } else {
                    r == Err::<AuthIdentity, MacpError>(MacpError::Unauthenticated)
                },
            },
    {
        match bearer_token(authorization, x_macp_token) {
            Some(token) => {
                return match self.identities.get(token.as_str()) {
                    Some(id) => Ok(copy_identity(id)),
                    None => Err(MacpError::Unauthenticated),
                };
            },
            None => {},
        }
        if self.allow_dev_sender_header {
            match x_macp_agent_id {
                Some(sender) => {
                    return Ok(
                        AuthIdentity {
                            sender: owned(sender),
                            allowed_modes: None,
                            can_start_sessions: true,
                            max_open_sessions: None,
                            can_manage_mode_registry: true,
                        },
                    );
                },
                None => {},
            }
        }
        Err(MacpError::Unauthenticated)
    }

    /// Whether the identity may use the mode (and start a session in it).
    /// Admit an authenticated caller's envelope: check it, and give it the
    /// caller's identity as its sender.
    pub fn admit_envelope(&self, identity: &AuthIdentity, env: &mut Envelope) -> (r: Result<(), MacpError>)
        ensures
            match admission_error(*identity, *old(env), self.max_payload_bytes) {
                Some(e) => r == Err::<(), MacpError>(e) && *final(env) == *old(env),
                None => {
                    &&& r is Ok
                    &&& *final(env) == (Envelope { sender: final(env).sender, ..*old(env) })
                    &&& final(env).sender@ == identity.sender@
                },
            },
    {
        proof {
            reveal_strlit("Signal");
        }
        if env.payload.len() > self.max_payload_bytes {
            return Err(MacpError::PayloadTooLarge);
        }
        if env.sender.unicode_len() > 0 && !str_eq(env.sender.as_str(), identity.sender.as_str()) {
            return Err(MacpError::Forbidden);
        }
        if str_eq(env.message_type.as_str(), "Signal") && (env.session_id.unicode_len() > 0
            || env.mode.unicode_len() > 0) {
            return Err(MacpError::InvalidEnvelope);
        }
        env.sender = identity.sender.clone();
        Ok(())
    }

    pub fn authorize_mode(&self, identity: &AuthIdentity, mode: &str, is_session_start: bool) -> (r: Result<
        (),
        MacpError,
    >)
        ensures
            mode_refused(*identity, mode@, is_session_start) ==> r == Err::<(), MacpError>(
                MacpError::Forbidden,
            ),
            !mode_refused(*identity, mode@, is_session_start) ==> r is Ok,
    {
        if is_session_start && !identity.can_start_sessions {
            return Err(MacpError::Forbidden);
        }
        match &identity.allowed_modes {
            Some(allowed_modes) => {
                if !vec_has(allowed_modes, mode) {
                    return Err(MacpError::Forbidden);
                }
            },
            None => {},
        }
        Ok(())
    }

    /// Whether the identity may change the mode registry.
    pub fn authorize_mode_registry(&self, identity: &AuthIdentity) -> (r: Result<(), MacpError>)
        ensures
            identity.can_manage_mode_registry ==> r is Ok,
            !identity.can_manage_mode_registry ==> r == Err::<(), MacpError>(MacpError::Forbidden),
    {
        if identity.can_manage_mode_registry {
            Ok(())
        } else {
            Err(MacpError::Forbidden)
        }
    }

    /// Record a session start (or a session message) of `sender` at `now_ms`,
    /// or refuse it with `RateLimited` when the sender already has `limit`
    /// events within the window.
    pub fn enforce_rate_limit(&mut self, sender: &str, is_session_start: bool, now_ms: u64) -> (r: Result<
        (),
        MacpError,
    >)
        ensures
            final(self).identities == old(self).identities,
            final(self).allow_dev_sender_header == old(self).allow_dev_sender_header,
            final(self).max_payload_bytes == old(self).max_payload_bytes,
            final(self).session_start_rate == old(self).session_start_rate,
            final(self).message_rate == old(self).message_rate,
            is_session_start ==> {
                let config = old(self).session_start_rate;
                let d = window_events(old(self).start_events@, sender@, now_ms, config.window_ms);
                &&& checked_bucket(old(self).start_events@, final(self).start_events@, sender@, config, now_ms)
                &&& final(self).message_events@ == old(self).message_events@
                &&& (r is Ok <==> d.len() < config.limit)
                &&& r matches Err(e) ==> e == MacpError::RateLimited
            },
            !is_session_start ==> {
                let config = old(self).message_rate;
                let d = window_events(old(self).message_events@, sender@, now_ms, config.window_ms);
                &&& checked_bucket(old(self).message_events@, final(self).message_events@, sender@, config, now_ms)
                &&& final(self).start_events@ == old(self).start_events@
                &&& (r is Ok <==> d.len() < config.limit)
                &&& r matches Err(e) ==> e == MacpError::RateLimited
            },
    {
        if is_session_start {
            let config = self.session_start_rate;
            check_bucket(&mut self.start_events, sender, config, now_ms)
        } else {
            let config = self.message_rate;
            check_bucket(&mut self.message_events, sender, config, now_ms)
        }
    }
}

fn is_expired(t: u64, now: u64, window: u64) -> (r: bool)
    ensures
        r == expired_at(t, now, window),
{
    now > t && now - t > window
}

fn stale_senders(bucket: &OrderedMap<Vec<u64>>, now: u64, window: u64) -> (r: Vec<String>)
    ensures
        forall|k: Seq<char>|
            #[trigger] texts(r@).contains(k) <==> bucket@.contains_key(k) && stale(bucket@[k]@, now, window),
{
    let entries = bucket.entries();
    let n = entries.len();
    let mut out: Vec<String> = Vec::new();
    let mut i: usize = 0;
    while i < n
        invariant
            n == entries@.len(),
            i <= n,
            entries@ == bucket.entries_seq(),
            crate::keyed::keys_unique(entries@),
            forall|k: Seq<char>|
                #[trigger] texts(out@).contains(k) <==> exists|j: int|
                    0 <= j < i && (#[trigger] entries@[j]).0@ == k && stale(entries@[j].1@, now, window),
        decreases n - i,
    {
        let d = &entries[i].1;
        let ghost prev = texts(out@);
        if d.len() == 0 || is_expired(d[d.len() - 1], now, window) {
            out.push(entries[i].0.clone());
            proof {
                assert(texts(out@) =~= prev.push(entries@[i as int].0@));
                assert forall|k: Seq<char>| #[trigger] texts(out@).contains(k) <==> exists|j: int|
                    0 <= j < i + 1 && (#[trigger] entries@[j]).0@ == k && stale(entries@[j].1@, now, window) by {
                    if texts(out@).contains(k) {
                        let x = choose|x: int| 0 <= x < texts(out@).len() && texts(out@)[x] == k;
                        if x < prev.len() {
                            assert(prev.contains(k));
                        } else {
                            assert(entries@[i as int].0@ == k);
                        }
                    }
                    if exists|j: int| 0 <= j < i + 1 && (#[trigger] entries@[j]).0@ == k && stale(entries@[j].1@, now, window) {
                        let j = choose|j: int| 0 <= j < i + 1 && (#[trigger] entries@[j]).0@ == k && stale(entries@[j].1@, now, window);
                        if j < i {
                            assert(prev.contains(k));
                            let x = choose|x: int| 0 <= x < prev.len() && prev[x] == k;
                            assert(texts(out@)[x] == k);
                        } else {
                            assert(texts(out@)[prev.len() as int] == k);
                        }
                    }
                }
            }
        } else {
            proof {
                assert forall|k: Seq<char>| #[trigger] texts(out@).contains(k) <==> exists|j: int|
                    0 <= j < i + 1 && (#[trigger] entries@[j]).0@ == k && stale(entries@[j].1@, now, window) by {
                    if exists|j: int| 0 <= j < i + 1 && (#[trigger] entries@[j]).0@ == k && stale(entries@[j].1@, now, window) {
                        let j = choose|j: int| 0 <= j < i + 1 && (#[trigger] entries@[j]).0@ == k && stale(entries@[j].1@, now, window);
                        assert(j != i);
                    }
                }
            }
        }
        i = i + 1;
    }
    proof {
        assert forall|k: Seq<char>|
            #[trigger] texts(out@).contains(k) <==> bucket@.contains_key(k) && stale(bucket@[k]@, now, window) by {
            if texts(out@).contains(k) {
                let j = choose|j: int| 0 <= j < n && (#[trigger] entries@[j]).0@ == k && stale(entries@[j].1@, now, window);
                lemma_key_index(entries@, j);
            }
            if bucket@.contains_key(k) && stale(bucket@[k]@, now, window) {
                assert(seq_has_key(entries@, k));
                let j = choose|j: int| 0 <= j < entries@.len() && (#[trigger] entries@[j]).0@ == k;
                lemma_key_index(entries@, j);
            }
        }
    }
    out
}

fn check_bucket(bucket: &mut OrderedMap<Vec<u64>>, sender: &str, config: RateLimitConfig, now: u64) -> (r: Result<
    (),
    MacpError,
>)
    ensures
        checked_bucket(old(bucket)@, final(bucket)@, sender@, config, now),
        r is Ok <==> window_events(old(bucket)@, sender@, now, config.window_ms).len() < config.limit,
        r matches Err(e) ==> e == MacpError::RateLimited,
{
    let window = config.window_ms;
    // Forget senders whose events all lie outside the window.
    let stale_keys = stale_senders(bucket, now, window);
    let ghost ids = texts(stale_keys@);
    let ghost start = bucket@;
    let mut k: usize = 0;
    while k < stale_keys.len()
        invariant
            k <= stale_keys@.len(),
            ids == texts(stale_keys@),
            start == old(bucket)@,
            forall|key: Seq<char>|
                #[trigger] ids.contains(key) <==> start.contains_key(key) && stale(start[key]@, now, window),
            forall|key: Seq<char>|
                #[trigger] bucket@.contains_key(key) <==> start.contains_key(key) && !ids.take(k as int).contains(key),
            forall|key: Seq<char>| #[trigger] bucket@.contains_key(key) ==> bucket@[key] == start[key],
        decreases stale_keys@.len() - k,
    {
        bucket.remove(stale_keys[k].as_str());
        proof {
            assert(ids[k as int] == stale_keys@[k as int]@);
            assert forall|key: Seq<char>| ids.take(k + 1).contains(key) <==> (ids.take(k as int).contains(key)
                || key == ids[k as int]) by {
                if ids.take(k + 1).contains(key) {
                    let j = choose|j: int| 0 <= j < k + 1 && #[trigger] ids.take(k + 1)[j] == key;
                    if j < k {
                        assert(ids.take(k as int)[j] == key);
                    }
                }
                if ids.take(k as int).contains(key) {
                    let j = choose|j: int| 0 <= j < k && #[trigger] ids.take(k as int)[j] == key;
                    assert(ids.take(k + 1)[j] == key);
                }
                if key == ids[k as int] {
                    assert(ids.take(k + 1)[k as int] == key);
                }
            }
        }
        k = k + 1;
    }
    proof {
        assert(ids.take(stale_keys@.len() as int) =~= ids);
    }
    let ghost pruned = bucket@;
    let mut deque = match bucket.remove(sender) {
        Some(d) => d,
        None => Vec::new(),
    };
    proof {
        assert(deque@ == if pruned.contains_key(sender@) {
            start[sender@]@
        } else {
            Seq::<u64>::empty()
        });
    }
    let ghost full = deque@;
    while deque.len() > 0 && is_expired(deque[0], now, window)
        invariant
            trim_front(deque@, now, window) == trim_front(full, now, window),
        decreases deque@.len(),
    {
        let ghost prev = deque@;
        deque.remove(0);
        proof {
            assert(deque@ =~= prev.drop_first());
        }
    }
    let r = if deque.len() >= config.limit {
        Err(MacpError::RateLimited)
    } else {
        deque.push(now);
        Ok(())
    };
    bucket.insert(owned(sender), deque);
    r
}

} // verus!
