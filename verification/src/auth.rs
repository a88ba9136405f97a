//! Pluggable authentication: resolvers that recognise a request's
//! credential and turn it into an identity, and the chain that asks them in
//! turn.
//!
//! A resolver answers `Ok(Some(identity))` when it verified the credential
//! (the chain stops), `Ok(None)` when the credential is not of its kind (the
//! chain goes on), and `Err(..)` when the credential is of its kind but
//! invalid (the chain stops with an error).
use vstd::prelude::*;
use crate::error::MacpError;
use crate::mode_registry::clone_strings;
use crate::ordered::OrderedMap;
use crate::security::{bearer_of, bearer_token, same_identity, AuthIdentity};
use crate::text::{concat, owned, str_contains_char, str_eq, str_starts_with};

verus! {

#[derive(Debug)]
pub enum AuthError {
    InvalidCredential(String),
    Expired,
    MissingClaim(String),
    FetchFailed(String),
}

impl AuthError {
    /// The error as a message.
    pub fn message(&self) -> (r: String)
        ensures
            r@ == match self {
                AuthError::InvalidCredential(msg) => "invalid credential: "@ + msg@,
                AuthError::Expired => "credential expired"@,
                AuthError::MissingClaim(claim) => "missing required claim: "@ + claim@,
                AuthError::FetchFailed(msg) => "key fetch failed: "@ + msg@,
            },
    {
        match self {
            AuthError::InvalidCredential(msg) => concat("invalid credential: ", msg.as_str()),
            AuthError::Expired => owned("credential expired"),
            AuthError::MissingClaim(claim) => concat("missing required claim: ", claim.as_str()),
            AuthError::FetchFailed(msg) => concat("key fetch failed: ", msg.as_str()),
        }
    }
}

/// An identity as a resolver established it.
#[derive(Debug)]
pub struct ResolvedIdentity {
    pub sender: String,
    pub allowed_modes: Option<Vec<String>>,
    pub can_start_sessions: bool,
    pub max_open_sessions: Option<usize>,
    pub can_manage_mode_registry: bool,
    pub is_observer: bool,
    /// The name of the resolver that established it.
    pub resolver: String,
}

impl ResolvedIdentity {
    /// The identity the rest of the runtime works with.
    pub fn into_identity(self) -> (r: AuthIdentity)
        ensures
            r.sender == self.sender,
            r.allowed_modes == self.allowed_modes,
            r.can_start_sessions == self.can_start_sessions,
            r.max_open_sessions == self.max_open_sessions,
            r.can_manage_mode_registry == self.can_manage_mode_registry,
    {
        AuthIdentity {
            sender: self.sender,
            allowed_modes: self.allowed_modes,
            can_start_sessions: self.can_start_sessions,
            max_open_sessions: self.max_open_sessions,
            can_manage_mode_registry: self.can_manage_mode_registry,
        }
    }
}

/// A pluggable auth resolver, implemented by the embedding application or
/// by this library; it sees the request's `authorization` and
/// `x-macp-token` header values.
pub trait AuthResolver {
    fn name(&self) -> &str;

    fn resolve(&self, authorization: Option<&str>, x_macp_token: Option<&str>) -> Result<
        Option<ResolvedIdentity>,
        AuthError,
    >;
}

/// The view of an optional header value.
pub open spec fn header(v: Option<&str>) -> Option<Seq<char>> {
    match v {
        Some(s) => Some(s@),
        None => None,
    }
}

/// The token contains a dot: the shape of a JWT.
pub open spec fn jwt_shaped(token: Seq<char>) -> bool {
    token.contains('.')
}

/// Resolves opaque bearer tokens against a pre-loaded identity map; tokens
/// shaped like a JWT are left to other resolvers.
pub struct StaticBearerResolver {
    pub identities: OrderedMap<AuthIdentity>,
}

impl StaticBearerResolver {
    pub fn new(identities: OrderedMap<AuthIdentity>) -> (r: Self)
        ensures
            r.identities == identities,
    {
        StaticBearerResolver { identities }
    }

    /// The token of an `authorization: Bearer <token>` header, else of an
    /// `x-macp-token` header.
    pub fn extract_bearer(authorization: Option<&str>, x_macp_token: Option<&str>) -> (r: Option<String>)
        ensures
            match bearer_of(header(authorization), header(x_macp_token)) {
                Some(t) => r matches Some(s) && s@ == t,
                None => r is None,
            },
    {
        bearer_token(authorization, x_macp_token)
    }

    /// Resolve the request's bearer token against the identity map.
    pub fn resolve_token(&self, authorization: Option<&str>, x_macp_token: Option<&str>) -> (r: Result<
        Option<ResolvedIdentity>,
        AuthError,
    >)
        ensures
            match bearer_of(header(authorization), header(x_macp_token)) {
                None => r matches Ok(None),
                Some(t) => if jwt_shaped(t) {
                    r matches Ok(None)
                } else if self.identities@.contains_key(t) {
                    r matches Ok(Some(id)) && same_identity(id.into_identity_spec(), self.identities@[t])
                        && !id.is_observer && id.resolver@ == "static_bearer"@
                } else {
                    r matches Err(AuthError::InvalidCredential(m)) && m@
                        == "token not found in identity map"@
                },
            },
    {
        let token = match Self::extract_bearer(authorization, x_macp_token) {
            Some(t) => t,
            None => {
                return Ok(None);
            },
        };
        // JWT-shaped tokens (contain dots) are not ours: defer to the JWT resolver.
        if str_contains_char(token.as_str(), '.') {
            return Ok(None);
        }
        match self.identities.get(token.as_str()) {
            Some(identity) => Ok(
                Some(
                    ResolvedIdentity {
                        sender: identity.sender.clone(),
                        allowed_modes: match &identity.allowed_modes {
                            Some(m) => Some(clone_strings(m)),
                            None => None,
                        },
                        can_start_sessions: identity.can_start_sessions,
                        max_open_sessions: identity.max_open_sessions,
                        can_manage_mode_registry: identity.can_manage_mode_registry,
                        is_observer: false,
                        resolver: owned("static_bearer"),
                    },
                ),
            ),
            None => Err(AuthError::InvalidCredential(owned("token not found in identity map"))),
        }
    }
}

impl ResolvedIdentity {
    /// The identity this one converts into.
    pub open spec fn into_identity_spec(self) -> AuthIdentity {
        AuthIdentity {
            sender: self.sender,
            allowed_modes: self.allowed_modes,
            can_start_sessions: self.can_start_sessions,
            max_open_sessions: self.max_open_sessions,
            can_manage_mode_registry: self.can_manage_mode_registry,
        }
    }
}

impl AuthResolver for StaticBearerResolver {
    fn name(&self) -> (r: &str)
        ensures
            r@ == "static_bearer"@,
    {
        "static_bearer"
    }

    fn resolve(&self, authorization: Option<&str>, x_macp_token: Option<&str>) -> (r: Result<
        Option<ResolvedIdentity>,
        AuthError,
    >)
        ensures
            match bearer_of(header(authorization), header(x_macp_token)) {
                None => r matches Ok(None),
                Some(t) => if jwt_shaped(t) {
                    r matches Ok(None)
                } else if self.identities@.contains_key(t) {
                    r matches Ok(Some(id)) && same_identity(id.into_identity_spec(), self.identities@[t])
                        && !id.is_observer && id.resolver@ == "static_bearer"@
                } else {
                    r matches Err(AuthError::InvalidCredential(m)) && m@
                        == "token not found in identity map"@
                },
            },
    {
        self.resolve_token(authorization, x_macp_token)
    }
}

/// What the chain does with one resolver's answer: stop with an identity,
/// stop with `Unauthenticated`, or go on (`None`).
pub fn chain_decision(answer: Result<Option<ResolvedIdentity>, AuthError>) -> (r: Option<
    Result<AuthIdentity, MacpError>,
>)
    ensures
        match answer {
            Ok(Some(id)) => r matches Some(Ok(a)) && a == id.into_identity_spec(),
            Ok(None) => r is None,
            Err(_) => r == Some(Err::<AuthIdentity, MacpError>(MacpError::Unauthenticated)),
        },
{
    match answer {
        Ok(Some(identity)) => Some(Ok(identity.into_identity())),
        Ok(None) => None,
        Err(_) => Some(Err(MacpError::Unauthenticated)),
    }
}

/// The answer settles the chain: it verifies or rejects the credential.
pub open spec fn decisive(answer: Result<Option<ResolvedIdentity>, AuthError>) -> bool {
    !(answer matches Ok(None))
}

/// What the chain returns for a settling answer.
pub open spec fn answer_outcome(answer: Result<Option<ResolvedIdentity>, AuthError>) -> Result<
    AuthIdentity,
    MacpError,
> {
    match answer {
        Ok(Some(id)) => Ok(id.into_identity_spec()),
        _ => Err(MacpError::Unauthenticated),
    }
}

/// The answers of the resolvers asked, in order, came as a chain asks
/// them: one per resolver from the first on, none settling the chain before
/// the last, and fewer than `count` only when the last one settled it.
pub open spec fn asked_in_turn(answers: Seq<Result<Option<ResolvedIdentity>, AuthError>>, count: nat) -> bool {
    &&& answers.len() <= count
    &&& forall|k: int| 0 <= k < answers.len() - 1 ==> !decisive(#[trigger] answers[k])
    &&& answers.len() < count ==> answers.len() > 0 && decisive(answers.last())
}

/// The chain's result from its answers: that of the settling answer, or
/// `Unauthenticated` when none settled it.
pub open spec fn chain_outcome(answers: Seq<Result<Option<ResolvedIdentity>, AuthError>>) -> Result<
    AuthIdentity,
    MacpError,
> {
    if answers.len() > 0 && decisive(answers.last()) {
        answer_outcome(answers.last())
    } else {
        Err(MacpError::Unauthenticated)
    }
}

/// Resolvers asked in order until one recognises the credential.
pub struct AuthResolverChain<R: AuthResolver> {
    resolvers: Vec<R>,
}

impl<R: AuthResolver> AuthResolverChain<R> {
    /// The number of resolvers.
    pub closed spec fn resolver_count(&self) -> nat {
        self.resolvers@.len()
    }

    pub fn new(resolvers: Vec<R>) -> (r: Self)
        ensures
            r.resolver_count() == resolvers@.len(),
    {
        AuthResolverChain { resolvers }
    }

    /// Ask each resolver in turn: the first that verifies the credential
    /// gives the identity, the first that rejects it ends the chain with
    /// `Unauthenticated`, and so does a chain that nobody answers.
    pub fn authenticate(&self, authorization: Option<&str>, x_macp_token: Option<&str>) -> (r: Result<
        AuthIdentity,
        MacpError,
    >)
        ensures
            r matches Err(e) ==> e == MacpError::Unauthenticated,
            self.resolver_count() == 0 ==> r == Err::<AuthIdentity, MacpError>(MacpError::Unauthenticated),
            exists|answers: Seq<Result<Option<ResolvedIdentity>, AuthError>>|
                asked_in_turn(answers, self.resolver_count()) && #[trigger] chain_outcome(answers) == r,
    {
        let n = self.resolvers.len();
        let ghost mut answers: Seq<Result<Option<ResolvedIdentity>, AuthError>> = seq![];
        let mut i: usize = 0;
        while i < n
            invariant
                n == self.resolvers@.len(),
                n == self.resolver_count(),
                i <= n,
                answers.len() == i,
                forall|k: int| 0 <= k < i ==> !decisive(#[trigger] answers[k]),
            decreases n - i,
        {
            let answer = self.resolvers[i].resolve(authorization, x_macp_token);
            let ghost given = answer;
            proof {
                answers = answers.push(given);
            }
            match chain_decision(answer) {
                Some(outcome) => {
                    assert(asked_in_turn(answers, self.resolver_count()));
                    assert(chain_outcome(answers) == outcome);
                    return outcome;
                },
                None => {},
            }
            i = i + 1;
        }
        assert(asked_in_turn(answers, self.resolver_count()));
        assert(chain_outcome(answers) == Err::<AuthIdentity, MacpError>(MacpError::Unauthenticated));
        Err(MacpError::Unauthenticated)
    }
}

/// The scopes a JWT may grant, each optional.
#[derive(Debug)]
pub struct JwtScopes {
    pub can_start_sessions: Option<bool>,
    pub can_manage_mode_registry: Option<bool>,
    pub is_observer: Option<bool>,
    pub allowed_modes: Option<Vec<String>>,
    pub max_open_sessions: Option<usize>,
}

/// The claims of a verified JWT.
#[derive(Debug)]
pub struct JwtClaims {
    pub sub: String,
    pub macp_scopes: Option<JwtScopes>,
}

/// Why a JWT failed validation against a key.
#[derive(Debug)]
pub enum JwtFailure {
    ExpiredSignature,
    InvalidIssuer,
    InvalidAudience,
    /// Any other failure, with its message.
    Other(String),
}

/// The identity a verified JWT grants: a session may be started and the
/// registry is not managed unless the scopes say otherwise.
pub open spec fn jwt_grants(id: ResolvedIdentity, claims: JwtClaims) -> bool {
    &&& id.sender == claims.sub
    &&& id.resolver@ == "jwt_bearer"@
    &&& match claims.macp_scopes {
        None => {
            &&& id.allowed_modes is None
            &&& id.can_start_sessions
            &&& id.max_open_sessions is None
            &&& !id.can_manage_mode_registry
            &&& !id.is_observer
        },
        Some(s) => {
            &&& id.allowed_modes == s.allowed_modes
            &&& id.can_start_sessions == match s.can_start_sessions {
                Some(b) => b,
                None => true,
            }
            &&& id.max_open_sessions == s.max_open_sessions
            &&& id.can_manage_mode_registry == match s.can_manage_mode_registry {
                Some(b) => b,
                None => false,
            }
            &&& id.is_observer == match s.is_observer {
                Some(b) => b,
                None => false,
            }
        },
    }
}

/// The JWT resolver's decisions; checking a token's signature and claims
/// against each key is the caller's.
pub struct JwtBearerResolver;

impl JwtBearerResolver {
    /// The token of an `authorization: Bearer <token>` header, if it has
    /// the shape of a JWT; other credentials are not the JWT resolver's.
    pub fn extract_jwt(authorization: Option<&str>) -> (r: Option<String>)
        ensures
            match bearer_of(header(authorization), None) {
                Some(t) => if jwt_shaped(t) {
                    r matches Some(s) && s@ == t
                } else {
                    r is None
                },
                None => r is None,
            },
    {
        match bearer_token(authorization, None) {
            Some(token) => {
                if str_contains_char(token.as_str(), '.') {
                    Some(token)
                } else {
                    None
                }
            },
            None => None,
        }
    }

    /// The identity that verified claims grant.
    pub fn identity_from_claims(claims: JwtClaims) -> (r: ResolvedIdentity)
        ensures
            jwt_grants(r, claims),
    {
        let ghost c = claims;
        let JwtClaims { sub, macp_scopes } = claims;
        match macp_scopes {
            Some(scopes) => ResolvedIdentity {
                sender: sub,
                allowed_modes: scopes.allowed_modes,
                can_start_sessions: match scopes.can_start_sessions {
                    Some(b) => b,
                    None => true,
                },
                max_open_sessions: scopes.max_open_sessions,
                can_manage_mode_registry: match scopes.can_manage_mode_registry {
                    Some(b) => b,
                    None => false,
                },
                is_observer: match scopes.is_observer {
                    Some(b) => b,
                    None => false,
                },
                resolver: owned("jwt_bearer"),
            },
            None => ResolvedIdentity {
                sender: sub,
                allowed_modes: None,
                can_start_sessions: true,
                max_open_sessions: None,
                can_manage_mode_registry: false,
                is_observer: false,
                resolver: owned("jwt_bearer"),
            },
        }
    }

    /// The answer for a JWT checked against each key in turn (`checks[i]`
    /// for key `i`): the first key that verifies it gives the identity;
    /// otherwise the last failure decides the error, and with no keys the
    /// token cannot be validated.
    pub fn resolve_checks(checks: Vec<Result<JwtClaims, JwtFailure>>) -> (r: Result<
        Option<ResolvedIdentity>,
        AuthError,
    >)
        ensures
            match first_verified(checks@) {
                Some(i) => r matches Ok(Some(id)) && jwt_grants(id, checks@[i]->Ok_0),
                None => if checks@.len() == 0 {
                    r matches Err(AuthError::InvalidCredential(m)) && m@ == "no keys available to validate JWT"@
                } else {
                    match checks@.last() {
                        Err(JwtFailure::ExpiredSignature) => r matches Err(AuthError::Expired),
                        Err(JwtFailure::InvalidIssuer) => r matches Err(AuthError::InvalidCredential(m))
                            && m@ == "invalid issuer"@,
                        Err(JwtFailure::InvalidAudience) => r matches Err(AuthError::InvalidCredential(m))
                            && m@ == "invalid audience"@,
                        Err(JwtFailure::Other(msg)) => r matches Err(AuthError::InvalidCredential(m)) && m@
                            == "JWT validation failed: "@ + msg@,
                        Ok(_) => false,
                    }
                },
            },
    {
        let ghost all = checks@;
        let mut pending = checks;
        let n = pending.len();
        let mut last_err: Option<JwtFailure> = None;
        let mut i: usize = 0;
        while i < n
            invariant
                n == all.len(),
                i <= n,
                pending@ == all.subrange(i as int, n as int),
                all == checks@,
                first_verified(all.take(i as int)) is None,
                i == 0 <==> last_err is None,
                i > 0 ==> all[i - 1] == Err::<JwtClaims, JwtFailure>(last_err->0),
            decreases n - i,
        {
            let check = pending.remove(0);
            proof {
                assert(check == all[i as int]);
                assert(all.take(i + 1).drop_last() =~= all.take(i as int));
                assert(pending@ =~= all.subrange(i + 1, n as int));
            }
            match check {
                Ok(claims) => {
                    proof {
                        lemma_first_verified_at(all, i as int);
                    }
                    return Ok(Some(Self::identity_from_claims(claims)));
                },
                Err(e) => {
                    last_err = Some(e);
                },
            }
            i = i + 1;
        }
        proof {
            assert(all.take(n as int) =~= all);
        }
        match last_err {
            Some(e) => match e {
                JwtFailure::ExpiredSignature => Err(AuthError::Expired),
                JwtFailure::InvalidIssuer => Err(AuthError::InvalidCredential(owned("invalid issuer"))),
                JwtFailure::InvalidAudience => Err(AuthError::InvalidCredential(owned("invalid audience"))),
                JwtFailure::Other(msg) => Err(
                    AuthError::InvalidCredential(concat("JWT validation failed: ", msg.as_str())),
                ),
            },
            None => Err(AuthError::InvalidCredential(owned("no keys available to validate JWT"))),
        }
    }
}

/// Keys fetched at `fetched_at_ms` are still fresh at `now_ms` under a cache
/// lifetime of `ttl_ms`; a clock read before the fetch counts as no time elapsed.
pub open spec fn keys_fresh(fetched_at_ms: u64, now_ms: u64, ttl_ms: u64) -> bool {
    (if now_ms >= fetched_at_ms {
        now_ms - fetched_at_ms
    } else {
        0
    }) < ttl_ms
}

/// Whether cached JWKS keys can be used without fetching them again.
pub fn jwks_cache_fresh(fetched_at_ms: u64, now_ms: u64, ttl_ms: u64) -> (r: bool)
    ensures
        r == keys_fresh(fetched_at_ms, now_ms, ttl_ms),
{
    let elapsed: u64 = if now_ms >= fetched_at_ms {
        now_ms - fetched_at_ms
    } else {
        0
    };
    elapsed < ttl_ms
}

/// The position of the first key that verified the token.
pub open spec fn first_verified(checks: Seq<Result<JwtClaims, JwtFailure>>) -> Option<int>
    decreases checks.len(),
{
    if checks.len() == 0 {
        None
    } else {
        match first_verified(checks.drop_last()) {
            Some(i) => Some(i),
            None => if checks.last() is Ok {
                Some(checks.len() - 1)
            } else {
                None
            },
        }
    }
}

proof fn lemma_first_verified_at(checks: Seq<Result<JwtClaims, JwtFailure>>, i: int)
    requires
        0 <= i < checks.len(),
        first_verified(checks.take(i)) is None,
        checks[i] is Ok,
    ensures
        first_verified(checks) == Some(i),
    decreases checks.len(),
{
    if checks.len() == i + 1 {
        assert(checks.drop_last() =~= checks.take(i));
    } else {
        assert(checks.drop_last().take(i) =~= checks.take(i));
        lemma_first_verified_at(checks.drop_last(), i);
    }
}

/// The fields of one JSON Web Key that key selection reads, each `""` where
/// the key does not carry it as a string (`k` is `None` then).
#[derive(Debug)]
pub struct JwkFields {
    pub kty: String,
    pub n: String,
    pub e: String,
    pub x: String,
    pub y: String,
    pub k: Option<String>,
}

/// The components of a usable key, by key type.
#[derive(Debug)]
pub enum KeyMaterial {
    /// An RSA public key: modulus and exponent.
    Rsa { n: String, e: String },
    /// An elliptic-curve public key: its two coordinates.
    Ec { x: String, y: String },
    /// A symmetric secret.
    Oct { k: String },
}

/// The key can be used: an RSA key with modulus and exponent, an EC key
/// with both coordinates, or a symmetric key with a secret.
pub open spec fn jwk_usable(j: JwkFields) -> bool {
    ||| j.kty@ == "RSA"@ && j.n@.len() > 0 && j.e@.len() > 0
    ||| j.kty@ == "EC"@ && j.x@.len() > 0 && j.y@.len() > 0
    ||| j.kty@ == "oct"@ && j.k is Some
}

/// `m` holds the components of key `j`.
pub open spec fn material_of(m: KeyMaterial, j: JwkFields) -> bool {
    match m {
        KeyMaterial::Rsa { n, e } => j.kty@ == "RSA"@ && n@ == j.n@ && e@ == j.e@,
        KeyMaterial::Ec { x, y } => j.kty@ == "EC"@ && x@ == j.x@ && y@ == j.y@,
        KeyMaterial::Oct { k } => j.kty@ == "oct"@ && (j.k matches Some(s) && k@ == s@),
    }
}

/// The components of a key, when it is usable.
pub fn jwk_material(j: &JwkFields) -> (r: Option<KeyMaterial>)
    ensures
        r is Some <==> jwk_usable(*j),
        r matches Some(m) ==> material_of(m, *j),
{
    if str_eq(j.kty.as_str(), "RSA") && j.n.unicode_len() > 0 && j.e.unicode_len() > 0 {
        Some(KeyMaterial::Rsa { n: j.n.clone(), e: j.e.clone() })
    } else if str_eq(j.kty.as_str(), "EC") && j.x.unicode_len() > 0 && j.y.unicode_len() > 0 {
        Some(KeyMaterial::Ec { x: j.x.clone(), y: j.y.clone() })
    } else if str_eq(j.kty.as_str(), "oct") {
        match &j.k {
            Some(k) => Some(KeyMaterial::Oct { k: k.clone() }),
            None => None,
        }
    } else {
        None
    }
}

} // verus!
