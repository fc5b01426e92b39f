//! The token service: issues and verifies signed, time-bounded session
//! tokens carrying a decimal subject id, an issued-at and an expiry claim.
//! Signing and signature checking are done by the jsonwebtoken crate; the
//! expiry comparison is done here, against a caller-supplied clock. Nothing
//! in this crate installs a custom crypto provider, so jsonwebtoken's
//! default HMAC implementation is the one the contracts describe.

use vstd::prelude::*;

use crate::config::Config;
use crate::decimal::dec_digits;
use crate::decimal::format_u64;
use crate::errors::AuthError;

verus! {

/// The claim set of a session token.
#[derive(Debug)]
pub struct TokenClaims {
    pub sub: String,
    pub exp: u64,
    pub iat: u64,
}

/// What signature-only decoding returns for a token string under a secret:
/// `Some((sub, iat, exp))` when the token is well-formed and its signature
/// validates against the secret and its payload carries exactly those three
/// claims; `None` otherwise. A function of the token and the secret alone.
pub uninterp spec fn jwt_decode(token: Seq<char>, secret: Seq<char>) -> Option<
    (Seq<char>, u64, u64),
>;

/// Whether two secrets derive the same HMAC key. RFC 2104 keying pads a
/// short key with zero bytes (and hashes a long one) to the block size, so
/// distinct secret strings — one the other plus trailing zero bytes — can
/// key the same MAC and are then indistinguishable to signature validation.
/// A function of the two secrets alone.
pub uninterp spec fn same_mac_key(k1: Seq<char>, k2: Seq<char>) -> bool;

/// A token that carries exactly the claims `(sub, iat, exp)` under `secret`:
/// it decodes to them with the signing secret, and the signature check
/// rejects every secret that keys a different MAC.
pub open spec fn issued_token(
    token: Seq<char>,
    sub: Seq<char>,
    iat: u64,
    exp: u64,
    secret: Seq<char>,
) -> bool {
    &&& jwt_decode(token, secret) == Some((sub, iat, exp))
    &&& forall|k: Seq<char>| #[trigger] jwt_decode(token, k) is Some ==> same_mac_key(k, secret)
}

/// Whether a token is accepted under `secret` at time `now`: its signature
/// validates and its expiry has not passed.
pub open spec fn token_accepted(token: Seq<char>, secret: Seq<char>, now: u64) -> bool {
    match jwt_decode(token, secret) {
        Some((sub, iat, exp)) => now <= exp,
        None => false,
    }
}

/// Relies on `jsonwebtoken::encode` with the default HS256 header: the
/// returned compact token carries exactly the claims `{sub, iat, exp}`, is
/// accepted by signature validation under the same secret, and is rejected
/// under every secret whose derived HMAC key differs. Encoding cannot fail:
/// the HMAC signer accepts a key of any length, and serializing the fixed
/// header and the three scalar claims cannot error.
#[verifier::external_body]
fn encode_claims(sub: &str, iat: u64, exp: u64, secret: &str) -> (r: Result<String, AuthError>)
    ensures
        r is Ok,
        r matches Ok(t) ==> jwt_decode(t@, secret@) == Some((sub@, iat, exp)),
        r matches Ok(t) ==> forall|k: Seq<char>| #[trigger] jwt_decode(t@, k) is Some
            ==> same_mac_key(k, secret@),
{
    let key = jsonwebtoken::EncodingKey::from_secret(secret.as_bytes());
    let mut claims = serde_json::Map::new();
    claims.insert("sub".to_owned(), serde_json::Value::from(sub));
    claims.insert("iat".to_owned(), serde_json::Value::from(iat));
    claims.insert("exp".to_owned(), serde_json::Value::from(exp));
    let header = jsonwebtoken::Header::default();
    match jsonwebtoken::encode(&header, &serde_json::Value::Object(claims), &key) {
        Ok(t) => Ok(t),
        Err(_) => Err(AuthError::JwtError),
    }
}

/// Relies on `jsonwebtoken::decode` with HS256 and the expiry check turned
/// off: pure signature validation and claim extraction, deterministic in the
/// token and the secret. Expiry is checked by the caller, not here.
#[verifier::external_body]
fn decode_claims(token: &str, secret: &str) -> (r: Result<TokenClaims, AuthError>)
    ensures
        r matches Ok(c) ==> jwt_decode(token@, secret@) == Some((c.sub@, c.iat, c.exp)),
        r is Err ==> jwt_decode(token@, secret@) is None,
        r matches Err(e) ==> e == AuthError::InvalidToken,
{
    let key = jsonwebtoken::DecodingKey::from_secret(secret.as_bytes());
    let mut validation = jsonwebtoken::Validation::new(jsonwebtoken::Algorithm::HS256);
    validation.validate_exp = false;
    let data = match jsonwebtoken::decode::<serde_json::Value>(token, &key, &validation) {
        Ok(d) => d.claims,
        Err(_) => return Err(AuthError::InvalidToken),
    };
    let sub = data.get("sub").and_then(serde_json::Value::as_str).map(|s| s.to_owned());
    let iat = data.get("iat").and_then(serde_json::Value::as_u64);
    match (sub, iat, data.get("exp").and_then(serde_json::Value::as_u64)) {
        (Some(sub), Some(iat), Some(exp)) => Ok(TokenClaims { sub, exp, iat }),
        _ => Err(AuthError::InvalidToken),
    }
}

/// Builds the claim set `{sub = subject_id, iat = now, exp = now + max age}`
/// and signs it with the configured symmetric secret. Signing always
/// succeeds.
pub fn issue_token(config: &Config, subject_id: u64, now: u64) -> (r: Result<String, AuthError>)
    requires
        1 <= config.jwt_max_age,
        now + config.jwt_max_age * 60 <= u64::MAX,
    ensures
        r is Ok,
        r matches Ok(t) ==> issued_token(
            t@,
            dec_digits(subject_id as int),
            now,
            (now + config.jwt_max_age * 60) as u64,
            config.jwt_secret@,
        ),
{
    let sub = format_u64(subject_id);
    let exp = now + (config.jwt_max_age as u64) * 60;
    encode_claims(sub.as_str(), now, exp, config.jwt_secret.as_str())
}

/// Verifies a token against the configured secret at time `now`: fails with
/// `InvalidToken` when the signature does not validate or the expiry has
/// passed; otherwise returns the claims the token carries.
pub fn verify_token(config: &Config, token: &str, now: u64) -> (r: Result<TokenClaims, AuthError>)
    ensures
        r is Ok <==> token_accepted(token@, config.jwt_secret@, now),
        r matches Ok(c) ==> jwt_decode(token@, config.jwt_secret@) == Some((c.sub@, c.iat, c.exp))
            && now <= c.exp,
        r matches Err(e) ==> e == AuthError::InvalidToken,
{
    let claims = match decode_claims(token, config.jwt_secret.as_str()) {
        Ok(c) => c,
        Err(e) => {
            return Err(e);
        },
    };
    if now > claims.exp {
        return Err(AuthError::InvalidToken);
    }
    Ok(claims)
}

/// A token carrying expiry `exp` is accepted with its signing secret at every
/// time up to `exp`, and rejected at every later time. In particular a token
/// issued at `T` with max age `M` is accepted at `T + M - 1` and rejected at
/// `T + M + 1`.
pub proof fn lemma_token_lifetime(
    token: Seq<char>,
    sub: Seq<char>,
    iat: u64,
    exp: u64,
    secret: Seq<char>,
    t_ok: u64,
    t_late: u64,
)
    requires
        issued_token(token, sub, iat, exp, secret),
        t_ok <= exp,
        t_late > exp,
    ensures
        token_accepted(token, secret, t_ok),
        !token_accepted(token, secret, t_late),
{
}

/// A token is never accepted, at any time, under a secret that keys a
/// different MAC than the one that signed it. Secrets that derive the same
/// HMAC key — one being the other plus trailing zero bytes — are excluded:
/// signature validation cannot tell them apart.
pub proof fn lemma_wrong_secret_rejected(
    token: Seq<char>,
    sub: Seq<char>,
    iat: u64,
    exp: u64,
    secret: Seq<char>,
    other: Seq<char>,
    now: u64,
)
    requires
        issued_token(token, sub, iat, exp, secret),
        !same_mac_key(other, secret),
    ensures
        !token_accepted(token, other, now),
{
    assert(jwt_decode(token, other) is Some ==> same_mac_key(other, secret));
}

} // verus!
