use vstd::prelude::*;

use crate::config::{valid_time, Config};
use crate::error::auth::AuthError;

verus! {

/// The signed token payload: the subject (a user id) and the absolute expiry
/// time in seconds since the epoch.
#[derive(Clone, Copy, Debug, PartialEq, Eq, Structural)]
pub struct Claims {
    pub sub: u64,
    pub exp: i64,
}

impl Claims {
    /// Builds the payload for a subject and an expiry time.
    pub fn new(sub: u64, exp: i64) -> (c: Claims)
        ensures
            c.sub == sub,
            c.exp == exp,
    {
        Claims { sub, exp }
    }
}

/// The token jsonwebtoken's `encode` signs over these claims with this
/// secret: a function of the three arguments alone.
pub uninterp spec fn token_of(sub: u64, exp: i64, secret: Seq<u8>) -> Seq<char>;

/// What jsonwebtoken's `decode` makes of a token under this secret, with the
/// expiry check left to the caller: a function of the two arguments alone.
pub uninterp spec fn decode_of(token: Seq<char>, secret: Seq<u8>) -> Option<(u64, i64)>;

/// Relies on jsonwebtoken::encode with the default (HS256) header: the token
/// it builds is a deterministic function of the claims and the secret alone,
/// and for HMAC the call cannot fail — `EncodingKey::from_secret` accepts any
/// byte string, signing never errors for any key length, and serializing the
/// two-field claims object cannot fail — so the unwrap cannot fire.
#[verifier::external_body]
fn encode_claims(sub: u64, exp: i64, secret: &[u8]) -> (r: String)
    ensures
        r@ == token_of(sub, exp, secret@),
{
    let mut claims = serde_json::Map::new();
    claims.insert("sub".to_owned(), serde_json::Value::from(sub.to_string()));
    claims.insert("exp".to_owned(), serde_json::Value::from(exp));
    let key = jsonwebtoken::EncodingKey::from_secret(secret);
    jsonwebtoken::encode(&jsonwebtoken::Header::default(), &serde_json::Value::Object(claims), &key)
        .unwrap()
}

/// Relies on jsonwebtoken::decode with HS256 and signature-only validation
/// (the expiry check is done by the caller against its own clock): the
/// outcome is a function of the token and the secret alone, and a token that
/// `encode_claims` built from some claims and the same secret decodes back to
/// exactly those claims.
#[verifier::external_body]
fn decode_claims(token: &str, secret: &[u8]) -> (r: Option<(u64, i64)>)
    ensures
        r == decode_of(token@, secret@),
        forall|s2: u64, e2: i64| token@ == token_of(s2, e2, secret@) ==> r == Some((s2, e2)),
{
    let mut validation = jsonwebtoken::Validation::new(jsonwebtoken::Algorithm::HS256);
    validation.validate_exp = false;
    validation.required_spec_claims.clear();
    let key = jsonwebtoken::DecodingKey::from_secret(secret);
    let data = jsonwebtoken::decode::<serde_json::Value>(token, &key, &validation).ok()?;
    let sub = data.claims.get("sub")?.as_str()?.parse::<u64>().ok()?;
    let exp = data.claims.get("exp")?.as_i64()?;
    Some((sub, exp))
}

/// What `verify` answers for a token: `InvalidToken` where the signature does
/// not verify or the structure is malformed, `Expired` where the expiry time
/// has passed, the subject otherwise.
pub open spec fn verify_outcome(token: Seq<char>, secret: Seq<u8>, now: i64) -> Result<
    u64,
    AuthError,
> {
    match decode_of(token, secret) {
        Option::None => Result::Err(AuthError::InvalidToken),
        Option::Some((sub, exp)) => if exp <= now {
            Result::Err(AuthError::Expired)
        } else {
            Result::Ok(sub)
        },
    }
}

/// Decodes and validates a session token against the clock reading `now`.
/// For a token `issue` built with the same secret, the answer is the issued
/// subject until the expiry time passes, and `Expired` afterwards.
pub fn verify(token: &str, secret: &[u8], now: i64) -> (r: Result<u64, AuthError>)
    ensures
        r == verify_outcome(token@, secret@, now),
        forall|sub: u64, exp: i64|
            token@ == token_of(sub, exp, secret@) ==> r == (if exp <= now {
                Result::<u64, AuthError>::Err(AuthError::Expired)
            } else {
                Result::<u64, AuthError>::Ok(sub)
            }),
{
    match decode_claims(token, secret) {
        Some((sub, exp)) => {
            if exp <= now {
                Err(AuthError::Expired)
            } else {
                Ok(sub)
            }
        },
        None => Err(AuthError::InvalidToken),
    }
}

/// Signs a self-contained credential for the subject, expiring
/// `cfg.jwt_expire` seconds after `now`. Signing a claims object with an
/// HMAC secret cannot fail, so a token is always produced.
pub fn issue(uid: u64, cfg: &Config, now: i64) -> (r: (String, i64))
    requires
        cfg.wf(),
        valid_time(now),
    ensures
        r.1 == now + cfg.jwt_expire,
        r.0@ == token_of(uid, (now + cfg.jwt_expire) as i64, cfg.jwt_secret@),
{
    let claims = Claims::new(uid, now + (cfg.jwt_expire as i64));
    let token = encode_claims(claims.sub, claims.exp, cfg.jwt_secret.as_slice());
    (token, claims.exp)
}

/// The gateway-side authentication step: takes the request's authorization
/// header if any, demands the bearer scheme, and verifies the carried token.
/// A missing header is `MissingCredentials`; a header without the bearer
/// prefix is `WrongCredentials`; the rest is `verify`'s answer on the token
/// after the prefix.
pub fn authenticate(header: Option<&str>, cfg: &Config, now: i64) -> (r: Result<u64, AuthError>)
    requires
        cfg.wf(),
    ensures
        header is None ==> r == Result::<u64, AuthError>::Err(AuthError::MissingCredentials),
        header matches Some(h) && (h@.len() < 7 || h@.subrange(0, 7) != "Bearer "@) ==> r
            == Result::<u64, AuthError>::Err(AuthError::WrongCredentials),
        header matches Some(h) ==> (h@.len() >= 7 && h@.subrange(0, 7) == "Bearer "@ ==> r
            == verify_outcome(h@.skip(7), cfg.jwt_secret@, now) && (forall|sub: u64, exp: i64|
            h@.skip(7) == token_of(sub, exp, cfg.jwt_secret@) ==> r == (if exp <= now {
                Result::<u64, AuthError>::Err(AuthError::Expired)
            } else {
                Result::<u64, AuthError>::Ok(sub)
            }))),
{
    let h = match header {
        Option::None => {
            return Err(AuthError::MissingCredentials);
        },
        Option::Some(h) => h,
    };
    let hn = h.unicode_len();
    proof {
        reveal_strlit("Bearer ");
    }
    if hn < 7 {
        return Err(AuthError::WrongCredentials);
    }
    let scheme = "Bearer ";
    let mut i: usize = 0;
    let mut ok = true;
    while ok && i < 7
        invariant
            "Bearer "@.len() == 7,
            scheme@ == "Bearer "@,
            hn == h@.len(),
            hn >= 7,
            i <= 7,
            ok ==> forall|k: int| 0 <= k < i ==> h@[k] == "Bearer "@[k],
            !ok ==> h@.subrange(0, 7) != "Bearer "@,
        decreases 7 - i + if ok {
            1int
        } else {
            0int
        },
    {
        if h.get_char(i) != scheme.get_char(i) {
            proof {
                assert(h@.subrange(0, 7)[i as int] != "Bearer "@[i as int]);
            }
            ok = false;
        } else {
            i += 1;
        }
    }
    if !ok {
        return Err(AuthError::WrongCredentials);
    }
    proof {
        assert(h@.subrange(0, 7) =~= "Bearer "@);
    }
    let token = h.substring_char(7, hn);
    proof {
        assert(token@ =~= h@.skip(7));
    }
    verify(token, cfg.jwt_secret.as_slice(), now)
}

} // verus!
