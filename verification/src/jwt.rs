//! Signature keys and token checks: which keys of a JSON Web Key Set can
//! verify tokens, and what checking a token against each of them gives.
//! Key decoding and token verification are `jsonwebtoken`'s.
use vstd::prelude::*;
use crate::auth::{jwk_material, jwk_usable, material_of, JwkFields, JwtFailure, KeyMaterial};
use crate::text::owned;

verus! {

#[verifier::external_type_specification]
#[verifier::external_body]
pub struct ExDecodingKey(jsonwebtoken::DecodingKey);

/// The name of whether `DecodingKey::from_rsa_components` accepts a modulus
/// and an exponent (both must decode as unpadded URL-safe base64).
pub uninterp spec fn rsa_components_decode(n: Seq<char>, e: Seq<char>) -> bool;

/// The name of whether `DecodingKey::from_ec_components` accepts two curve
/// coordinates (both must decode as unpadded URL-safe base64).
pub uninterp spec fn ec_components_decode(x: Seq<char>, y: Seq<char>) -> bool;

/// Calls `DecodingKey::from_rsa_components`: a key exactly when the
/// components decode, as named by `rsa_components_decode`.
#[verifier::external_body]
fn rsa_decoding_key(n: &str, e: &str) -> (r: Option<jsonwebtoken::DecodingKey>)
    ensures
        r is Some <==> rsa_components_decode(n@, e@),
{
    jsonwebtoken::DecodingKey::from_rsa_components(n, e).ok()
}

/// Calls `DecodingKey::from_ec_components`: a key exactly when the
/// coordinates decode, as named by `ec_components_decode`.
#[verifier::external_body]
fn ec_decoding_key(x: &str, y: &str) -> (r: Option<jsonwebtoken::DecodingKey>)
    ensures
        r is Some <==> ec_components_decode(x@, y@),
{
    jsonwebtoken::DecodingKey::from_ec_components(x, y).ok()
}

/// Calls `DecodingKey::from_base64_secret`: the secret's standard base64
/// decoding as an HMAC key, or `None` where it does not decode. Nothing is
/// claimed of which.
#[verifier::external_body]
fn base64_secret_key(k: &str) -> (r: Option<jsonwebtoken::DecodingKey>) {
    jsonwebtoken::DecodingKey::from_base64_secret(k).ok()
}

/// Calls `DecodingKey::from_secret` on the secret's bytes; it always gives
/// an HMAC key.
#[verifier::external_body]
fn secret_key(k: &str) -> (r: jsonwebtoken::DecodingKey) {
    jsonwebtoken::DecodingKey::from_secret(k.as_bytes())
}

/// The key components give a signature key: RSA and EC components must
/// decode; a symmetric secret always gives one (its base64 decoding, or
/// else its bytes).
pub open spec fn material_decodes(m: KeyMaterial) -> bool {
    match m {
        KeyMaterial::Rsa { n, e } => rsa_components_decode(n@, e@),
        KeyMaterial::Ec { x, y } => ec_components_decode(x@, y@),
        KeyMaterial::Oct { .. } => true,
    }
}

/// The signature key of the components, when they give one.
pub fn decoding_key(m: &KeyMaterial) -> (r: Option<jsonwebtoken::DecodingKey>)
    ensures
        r is Some <==> material_decodes(*m),
{
    match m {
        KeyMaterial::Rsa { n, e } => rsa_decoding_key(n.as_str(), e.as_str()),
        KeyMaterial::Ec { x, y } => ec_decoding_key(x.as_str(), y.as_str()),
        KeyMaterial::Oct { k } => match base64_secret_key(k.as_str()) {
            Some(key) => Some(key),
            None => Some(secret_key(k.as_str())),
        },
    }
}

/// Whether the key components give a signature key.
pub fn key_material_decodes(m: &KeyMaterial) -> (r: bool)
    ensures
        r == material_decodes(*m),
{
    decoding_key(m).is_some()
}

/// A key of the set whose components give a signature key.
pub open spec fn jwk_verifies(j: JwkFields) -> bool {
    &&& jwk_usable(j)
    &&& if j.kty@ == "RSA"@ {
        rsa_components_decode(j.n@, j.e@)
    } else if j.kty@ == "EC"@ {
        ec_components_decode(j.x@, j.y@)
    } else {
        true
    }
}

proof fn lemma_material_verifies(m: KeyMaterial, j: JwkFields)
    requires
        material_of(m, j),
        jwk_usable(j),
    ensures
        material_decodes(m) == jwk_verifies(j),
{
    reveal_strlit("RSA");
    reveal_strlit("EC");
    reveal_strlit("oct");
    assert("RSA"@ != "EC"@ && "RSA"@ != "oct"@ && "EC"@ != "oct"@) by {
        assert("RSA"@.len() != "EC"@.len());
        assert("EC"@[0] != "oct"@[0]);
        assert("RSA"@[0] != "oct"@[0]);
    }
}

/// The keys of the set that can verify tokens, in document order.
pub open spec fn verifying_jwks(keys: Seq<JwkFields>) -> Seq<JwkFields>
    decreases keys.len(),
{
    if keys.len() == 0 {
        seq![]
    } else if jwk_verifies(keys.last()) {
        verifying_jwks(keys.drop_last()).push(keys.last())
    } else {
        verifying_jwks(keys.drop_last())
    }
}

/// The components of the keys of a key set that can verify tokens, in
/// document order; refused when there is none.
pub fn jwt_keys_from_fields(fields: &Vec<JwkFields>) -> (r: Result<Vec<KeyMaterial>, String>)
    ensures
        match r {
            Ok(v) => {
                &&& v@.len() == verifying_jwks(fields@).len()
                &&& v@.len() > 0
                &&& forall|i: int| 0 <= i < v@.len() ==> material_of(#[trigger] v@[i], verifying_jwks(fields@)[i])
            },
            Err(msg) => verifying_jwks(fields@).len() == 0 && msg@ == "no usable keys found in JWKS"@,
        },
{
    let n = fields.len();
    let mut out: Vec<KeyMaterial> = Vec::new();
    let mut i: usize = 0;
    while i < n
        invariant
            n == fields@.len(),
            i <= n,
            out@.len() == verifying_jwks(fields@.take(i as int)).len(),
            forall|k: int|
                0 <= k < out@.len() ==> material_of(#[trigger] out@[k], verifying_jwks(fields@.take(i as int))[k]),
        decreases n - i,
    {
        assert(fields@.take(i + 1).drop_last() =~= fields@.take(i as int));
        assert(fields@.take(i + 1).last() == fields@[i as int]);
        match jwk_material(&fields[i]) {
            Some(m) => {
                proof {
                    lemma_material_verifies(m, fields@[i as int]);
                }
                if key_material_decodes(&m) {
                    out.push(m);
                }
            },
            None => {},
        }
        i = i + 1;
    }
    assert(fields@.take(n as int) =~= fields@);
    if out.len() == 0 {
        return Err(owned("no usable keys found in JWKS"));
    }
    Ok(out)
}

#[verifier::external_type_specification]
#[verifier::external_body]
pub struct ExAlgorithm(jsonwebtoken::Algorithm);

#[verifier::external_type_specification]
#[verifier::external_body]
pub struct ExValidation(jsonwebtoken::Validation);

/// The signature algorithms a token may use.
#[derive(Debug, Clone, Copy, PartialEq, Eq, Structural)]
pub enum JwtAlgorithm {
    HS256,
    HS384,
    HS512,
    ES256,
    ES384,
    RS256,
    RS384,
    RS512,
    PS256,
    PS384,
    PS512,
    EdDSA,
}

/// What a token must satisfy: its issuer, its audience and the signature
/// algorithms accepted.
pub struct JwtConfig {
    pub issuer: String,
    pub audience: String,
    pub algorithms: Vec<JwtAlgorithm>,
}

/// The `jsonwebtoken` algorithm of the same name.
#[verifier::external_body]
fn to_algorithm(a: JwtAlgorithm) -> (r: jsonwebtoken::Algorithm) {
    match a {
        JwtAlgorithm::HS256 => jsonwebtoken::Algorithm::HS256,
        JwtAlgorithm::HS384 => jsonwebtoken::Algorithm::HS384,
        JwtAlgorithm::HS512 => jsonwebtoken::Algorithm::HS512,
        JwtAlgorithm::ES256 => jsonwebtoken::Algorithm::ES256,
        JwtAlgorithm::ES384 => jsonwebtoken::Algorithm::ES384,
        JwtAlgorithm::RS256 => jsonwebtoken::Algorithm::RS256,
        JwtAlgorithm::RS384 => jsonwebtoken::Algorithm::RS384,
        JwtAlgorithm::RS512 => jsonwebtoken::Algorithm::RS512,
        JwtAlgorithm::PS256 => jsonwebtoken::Algorithm::PS256,
        JwtAlgorithm::PS384 => jsonwebtoken::Algorithm::PS384,
        JwtAlgorithm::PS512 => jsonwebtoken::Algorithm::PS512,
        JwtAlgorithm::EdDSA => jsonwebtoken::Algorithm::EdDSA,
    }
}

/// Calls `Validation::new`: the default checks (signature, required `exp`,
/// expiry with leeway) for one algorithm. Nothing is claimed of it.
#[verifier::external_body]
fn new_validation(alg: jsonwebtoken::Algorithm) -> (r: jsonwebtoken::Validation) {
    jsonwebtoken::Validation::new(alg)
}

/// Calls `Validation::set_issuer` with the one accepted issuer.
#[verifier::external_body]
fn set_issuer(v: &mut jsonwebtoken::Validation, issuer: &str) {
    v.set_issuer(&[issuer])
}

/// Calls `Validation::set_audience` with the one accepted audience.
#[verifier::external_body]
fn set_audience(v: &mut jsonwebtoken::Validation, audience: &str) {
    v.set_audience(&[audience])
}

/// Replaces the validation's accepted algorithms.
#[verifier::external_body]
fn set_algorithms(v: &mut jsonwebtoken::Validation, algorithms: Vec<jsonwebtoken::Algorithm>) {
    v.algorithms = algorithms
}

/// The checks a token must pass under `config`: those of `Validation::new`,
/// the configured issuer and audience, and the configured algorithms.
pub fn jwt_validation(config: &JwtConfig) -> jsonwebtoken::Validation {
    let mut v = new_validation(to_algorithm(JwtAlgorithm::RS256));
    set_issuer(&mut v, config.issuer.as_str());
    set_audience(&mut v, config.audience.as_str());
    let mut algorithms: Vec<jsonwebtoken::Algorithm> = Vec::new();
    let n = config.algorithms.len();
    let mut i: usize = 0;
    while i < n
        invariant
            n == config.algorithms@.len(),
            i <= n,
        decreases n - i,
    {
        algorithms.push(to_algorithm(config.algorithms[i]));
        i = i + 1;
    }
    set_algorithms(&mut v, algorithms);
    v
}

/// The name of the claims of a token as compact JSON text: its payload
/// segment decoded and written out again by `serde_json` (a function of the
/// token alone).
pub uninterp spec fn jwt_claims_text(token: Seq<char>) -> Seq<char>;

/// Calls `jsonwebtoken::decode`, with the claims read as a JSON value and
/// written out as text. Where it verifies the token (signature, algorithm,
/// expiry against the machine's clock, issuer and audience), the text is that
/// of the token's claims; its failures are sorted by their kind. Which
/// outcome comes depends on the clock, and is not claimed; nor is it claimed
/// that an accepted token's `iss` and `aud` are the configured ones, which
/// the claims text would have to be read as JSON to state.
#[verifier::external_body]
fn decode_claims(
    token: &str,
    key: &jsonwebtoken::DecodingKey,
    validation: &jsonwebtoken::Validation,
) -> (r: Result<String, JwtFailure>)
    ensures
        r matches Ok(text) ==> text@ == jwt_claims_text(token@),
{
    match jsonwebtoken::decode::<serde_json::Value>(token, key, validation) {
        Ok(data) => Ok(data.claims.to_string()),
        Err(e) => Err(match e.kind() {
            jsonwebtoken::errors::ErrorKind::ExpiredSignature => JwtFailure::ExpiredSignature,
            jsonwebtoken::errors::ErrorKind::InvalidIssuer => JwtFailure::InvalidIssuer,
            jsonwebtoken::errors::ErrorKind::InvalidAudience => JwtFailure::InvalidAudience,
            _ => JwtFailure::Other(e.to_string()),
        }),
    }
}

/// Check a token against one key: the key's components must give a
/// signature key, and the token must pass `validation` under it; what comes
/// back on success is the token's claims as JSON text.
pub fn check_jwt(token: &str, key: &KeyMaterial, validation: &jsonwebtoken::Validation) -> (r: Result<
    String,
    JwtFailure,
>)
    ensures
        !material_decodes(*key) ==> (r matches Err(JwtFailure::Other(m)) && m@
            == "key components do not decode"@),
        r matches Ok(text) ==> text@ == jwt_claims_text(token@),
{
    match decoding_key(key) {
        Some(k) => decode_claims(token, &k, validation),
        None => Err(JwtFailure::Other(owned("key components do not decode"))),
    }
}

/// Check a token against each key in turn, under the checks `config` asks
/// for; one outcome per key, in key order.
pub fn jwt_checks(token: &str, keys: &Vec<KeyMaterial>, config: &JwtConfig) -> (r: Vec<Result<String, JwtFailure>>)
    ensures
        r@.len() == keys@.len(),
        forall|i: int|
            0 <= i < keys@.len() ==> {
                &&& (#[trigger] r@[i]) matches Ok(text) ==> text@ == jwt_claims_text(token@)
                &&& !material_decodes(keys@[i]) ==> r@[i] is Err
            },
{
    let validation = jwt_validation(config);
    let n = keys.len();
    let mut out: Vec<Result<String, JwtFailure>> = Vec::new();
    let mut i: usize = 0;
    while i < n
        invariant
            n == keys@.len(),
            i <= n,
            out@.len() == i,
            forall|k: int|
                0 <= k < i ==> {
                    &&& (#[trigger] out@[k]) matches Ok(text) ==> text@ == jwt_claims_text(token@)
                    &&& !material_decodes(keys@[k]) ==> out@[k] is Err
                },
        decreases n - i,
    {
        out.push(check_jwt(token, &keys[i], &validation));
        i = i + 1;
    }
    out
}

} // verus!
