//! The token service: signed, time-bounded identity tokens. Signing and
//! signature checking are done by the `jsonwebtoken` crate behind trusted
//! wrappers; the expiry comparison itself is verified code, so that the
//! boundary behaviour is pinned down exactly.

use std::collections::HashSet;

use vstd::prelude::*;

use jsonwebtoken::errors::ErrorKind;
use jsonwebtoken::{decode, encode, Algorithm, DecodingKey, EncodingKey, Header, Validation};
use serde_json::Value;

verus! {

/// The decoded payload of a token: subject identity id and absolute expiry,
/// in seconds since the epoch.
#[derive(Clone, Copy, Debug, PartialEq, Eq, Structural)]
pub struct Claims {
    pub sub: i32,
    pub exp: u64,
}

/// Why a token is refused.
#[derive(Clone, Copy, Debug, PartialEq, Eq, Structural)]
pub enum VerifyError {
    /// The encoding is not a well-formed token carrying numeric `sub` and
    /// `exp` claims.
    Malformed,
    /// The signature does not match this service's secret.
    InvalidSignature,
    /// The expiry has been reached.
    Expired,
}

// What decoding a token under a secret yields: it is a function of the secret
// and the token text alone. `Ok((sub, exp))` is the payload of a well-formed,
// correctly signed token; `Err(true)` stands for a well-formed token whose
// signature does not match the secret, `Err(false)` for anything malformed.
pub uninterp spec fn jwt_payload_of(secret: Seq<u8>, token: Seq<char>) -> Result<(i32, u64), bool>;

/// The token is well formed and signed under `secret`, and its payload binds
/// subject `sub` to expiry `exp`.
pub open spec fn token_carries(secret: Seq<u8>, token: Seq<char>, sub: i32, exp: u64) -> bool {
    jwt_payload_of(secret, token) == Ok::<(i32, u64), bool>((sub, exp))
}

/// Relies on jsonwebtoken::encode with the default header (HMAC-SHA256)
/// under the default signing provider. The call cannot fail here: HMAC
/// accepts a key of any length, its signing is infallible, and the two-field
/// numeric claims object always serializes. Signing is deterministic, and
/// decoding the returned token under the same secret yields exactly the
/// claims `{sub, exp}` that were signed.
#[verifier::external_body]
fn jwt_encode(secret: &[u8], sub: i32, exp: u64) -> (r: String)
    ensures
        token_carries(secret@, r@, sub, exp),
{
    let mut claims = serde_json::Map::new();
    claims.insert("sub".to_owned(), Value::from(sub));
    claims.insert("exp".to_owned(), Value::from(exp));
    let key = EncodingKey::from_secret(secret);
    encode(&Header::default(), &Value::Object(claims), &key).expect("HMAC signing cannot fail")
}

/// Relies on jsonwebtoken::decode, restricted to HMAC-SHA256, with signature
/// checking on and every other check — expiry, audience, required claims —
/// off: the outcome is then a function of the secret and the token alone,
/// and is what `jwt_payload_of` names. A decode error other than a signature
/// mismatch, and a payload without numeric `sub` and `exp`, are malformed.
#[verifier::external_body]
fn jwt_decode(secret: &[u8], token: &str) -> (r: Result<(i32, u64), bool>)
    ensures
        r == jwt_payload_of(secret@, token@),
{
    let mut v = Validation::new(Algorithm::HS256);
    v.validate_exp = false;
    v.validate_aud = false;
    v.required_spec_claims = HashSet::new();
    match decode::<Value>(token, &DecodingKey::from_secret(secret), &v) {
        Ok(d) => match (
            d.claims.get("sub").and_then(Value::as_i64).and_then(|s| i32::try_from(s).ok()),
            d.claims.get("exp").and_then(Value::as_u64),
        ) {
            (Some(s), Some(e)) => Ok((s, e)),
            _ => Err(false),
        },
        Err(e) => Err(matches!(e.kind(), ErrorKind::InvalidSignature)),
    }
}

/// What verifying a token at time `now` answers: the claims of a well-formed,
/// correctly signed token whose expiry lies strictly in the future; otherwise
/// the exact refusal. A token is invalid from the moment `now` reaches `exp`.
pub open spec fn spec_verify(secret: Seq<u8>, token: Seq<char>, now: u64) -> Result<
    Claims,
    VerifyError,
> {
    match jwt_payload_of(secret, token) {
        Ok((sub, exp)) => if now >= exp {
            Err(VerifyError::Expired)
        } else {
            Ok(Claims { sub, exp })
        },
        Err(sig) => if sig {
            Err(VerifyError::InvalidSignature)
        } else {
            Err(VerifyError::Malformed)
        },
    }
}

/// Issues and verifies tokens under one process-wide signing secret, loaded
/// once at startup and injected here; rotating the secret invalidates every
/// token issued before.
pub struct TokenService {
    secret: Vec<u8>,
}

impl TokenService {
    /// The signing secret, never exposed by the executable interface.
    pub closed spec fn spec_secret(self) -> Seq<u8> {
        self.secret@
    }

    pub fn new(secret: Vec<u8>) -> (s: TokenService)
        ensures
            s.spec_secret() == secret@,
    {
        TokenService { secret }
    }

    /// Issue a token binding `sub` to the window ending at `now + ttl`.
    pub fn issue(&self, sub: i32, ttl: u64, now: u64) -> (r: String)
        requires
            ttl >= 1,
            now + ttl <= u64::MAX,
        ensures
            token_carries(self.spec_secret(), r@, sub, (now + ttl) as u64),
    {
        jwt_encode(self.secret.as_slice(), sub, now + ttl)
    }

    /// Decode and check a token at time `now`: exactly `spec_verify`.
    pub fn verify(&self, token: &str, now: u64) -> (r: Result<Claims, VerifyError>)
        ensures
            r == spec_verify(self.spec_secret(), token@, now),
    {
        match jwt_decode(self.secret.as_slice(), token) {
            Ok((sub, exp)) => if now >= exp {
                Err(VerifyError::Expired)
            } else {
                Ok(Claims { sub, exp })
            },
            Err(sig) => if sig {
                Err(VerifyError::InvalidSignature)
            } else {
                Err(VerifyError::Malformed)
            },
        }
    }
}

/// Law: the round trip. A token whose payload binds `sub` to expiry `exp` —
/// which `issue` ensures of every token it returns — verifies, at any time
/// before `exp`, to claims whose subject is `sub`.
pub proof fn lemma_issue_verify_round_trip(
    secret: Seq<u8>,
    token: Seq<char>,
    sub: i32,
    exp: u64,
    now: u64,
)
    requires
        token_carries(secret, token, sub, exp),
        now < exp,
    ensures
        spec_verify(secret, token, now) == Ok::<Claims, VerifyError>(Claims { sub, exp }),
{
}

/// Law: expiry is a strict boundary. A token whose payload carries expiry
/// `exp` verifies at `exp - 1` and is refused as expired at `exp` and at
/// every later time.
pub proof fn lemma_expiry_boundary(secret: Seq<u8>, token: Seq<char>, sub: i32, exp: u64)
    requires
        token_carries(secret, token, sub, exp),
        exp >= 1,
    ensures
        spec_verify(secret, token, (exp - 1) as u64) == Ok::<Claims, VerifyError>(
            Claims { sub, exp },
        ),
        forall|now: u64|
            now >= exp ==> spec_verify(secret, token, now) == Err::<Claims, VerifyError>(
                VerifyError::Expired,
            ),
{
}

} // verus!
