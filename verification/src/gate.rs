//! The authorization gate: the per-route interception component. It is a
//! strict linear gate — header shape, then signature and expiry, then the
//! optional permission lookup — and every failure short-circuits into exactly
//! one terminal rejection. All per-request state lives in the incoming token.

use std::time::{SystemTime, UNIX_EPOCH};

use vstd::prelude::*;
use vstd::string::*;

use crate::rbac::RbacStore;
use crate::text::str_eq;
use crate::token::{jwt_payload_of, spec_verify, Claims, TokenService, VerifyError};

verus! {

/// The terminal answer for one request.
#[derive(Clone, Debug, PartialEq, Eq)]
pub enum GateOutcome {
    /// Let the request through; the decoded claims are attached so that
    /// downstream handlers read the acting identity without re-parsing.
    Forward(Claims),
    /// Reject as unauthorized (no valid identity) with this message.
    Unauthorized(String),
    /// Reject as forbidden (valid identity, insufficient permission) with
    /// this message.
    Forbidden(String),
}

/// The reserved permission name meaning: a valid token is sufficient, no
/// permission lookup is made.
pub const AUTHENTICATED_ONLY: &'static str = "LOGIN";

/// The header value has the `Bearer <token>` shape.
pub open spec fn spec_is_bearer(header: Seq<char>) -> bool {
    header.len() >= 7 && header.subrange(0, 7) == "Bearer "@
}

/// The token text after the scheme prefix.
pub open spec fn spec_bearer_token(header: Seq<char>) -> Seq<char> {
    header.subrange(7, header.len() as int)
}

/// A per-route gate, configured with the one permission name required to
/// pass; holds no per-request state.
pub struct Gate {
    required_permission: String,
}

impl Gate {
    /// The permission name this route requires.
    pub closed spec fn spec_required(self) -> Seq<char> {
        self.required_permission@
    }

    pub fn new(permission: &str) -> (g: Gate)
        ensures
            g.spec_required() == permission@,
    {
        Gate { required_permission: permission.to_owned() }
    }

    /// Intercept one request at time `now`. The contract is the whole
    /// behaviour table: a missing header, a header without the bearer shape,
    /// a refused token, the sentinel route, and the permission lookup each
    /// map to exactly one outcome.
    pub fn check(
        &self,
        store: &RbacStore,
        tokens: &TokenService,
        authorization: Option<&str>,
        now: u64,
    ) -> (r: GateOutcome)
        requires
            store.wf(),
        ensures
            authorization is None ==> (r matches GateOutcome::Unauthorized(m) && m@
                == "Missing token"@),
            authorization matches Some(h) ==> !spec_is_bearer(h@) ==> (r
                matches GateOutcome::Unauthorized(m) && m@ == "Invalid token format"@),
            authorization matches Some(h) ==> spec_is_bearer(h@) ==> {
                let v = spec_verify(tokens.spec_secret(), spec_bearer_token(h@), now);
                &&& v == Err::<Claims, VerifyError>(VerifyError::Expired) ==> (r
                    matches GateOutcome::Unauthorized(m) && m@ == "Token expired"@)
                &&& v is Err && v != Err::<Claims, VerifyError>(VerifyError::Expired) ==> (r
                    matches GateOutcome::Unauthorized(m) && m@ == "Invalid token"@)
                &&& v matches Ok(c) ==> {
                    &&& self.spec_required() == AUTHENTICATED_ONLY@ ==> r
                        == GateOutcome::Forward(c)
                    &&& self.spec_required() != AUTHENTICATED_ONLY@ && store.spec_has_permission(
                        c.sub,
                        self.spec_required(),
                    ) ==> r == GateOutcome::Forward(c)
                    &&& self.spec_required() != AUTHENTICATED_ONLY@ && !store.spec_has_permission(
                        c.sub,
                        self.spec_required(),
                    ) ==> (r matches GateOutcome::Forbidden(m) && m@ == "Forbidden"@)
                }
            },
    {
        let header = match authorization {
            None => {
                return GateOutcome::Unauthorized("Missing token".to_owned());
            },
            Some(h) => h,
        };
        let n = header.unicode_len();
        if n < 7 {
            return GateOutcome::Unauthorized("Invalid token format".to_owned());
        }
        let prefix = header.substring_char(0, 7);
        if !str_eq(prefix, "Bearer ") {
            return GateOutcome::Unauthorized("Invalid token format".to_owned());
        }
        let token = header.substring_char(7, n);
        let claims = match tokens.verify(token, now) {
            Err(e) => {
                return match e {
                    VerifyError::Expired => GateOutcome::Unauthorized("Token expired".to_owned()),
                    _ => GateOutcome::Unauthorized("Invalid token".to_owned()),
                };
            },
            Ok(c) => c,
        };
        if str_eq(self.required_permission.as_str(), AUTHENTICATED_ONLY) {
            return GateOutcome::Forward(claims);
        }
        if store.has_permission(claims.sub, self.required_permission.as_str()) {
            GateOutcome::Forward(claims)
        } else {
            GateOutcome::Forbidden("Forbidden".to_owned())
        }
    }

    /// Intercept a request against the process clock: `check` at whatever time the
    /// clock reads now. Everything the clock cannot change is pinned down;
    /// where it decides, the outcome is the timely one or the expiry
    /// rejection.
    pub fn check_now(
        &self,
        store: &RbacStore,
        tokens: &TokenService,
        authorization: Option<&str>,
    ) -> (r: GateOutcome)
        requires
            store.wf(),
        ensures
            authorization is None ==> (r matches GateOutcome::Unauthorized(m) && m@
                == "Missing token"@),
            authorization matches Some(h) ==> !spec_is_bearer(h@) ==> (r
                matches GateOutcome::Unauthorized(m) && m@ == "Invalid token format"@),
            authorization matches Some(h) ==> spec_is_bearer(h@) ==> {
                let p = jwt_payload_of(tokens.spec_secret(), spec_bearer_token(h@));
                &&& p is Err ==> (r matches GateOutcome::Unauthorized(m) && m@
                    == "Invalid token"@)
                &&& p matches Ok(pair) ==> {
                    let c = Claims { sub: pair.0, exp: pair.1 };
                    &&& self.spec_required() == AUTHENTICATED_ONLY@ ==> (r
                        == GateOutcome::Forward(c) || (r matches GateOutcome::Unauthorized(m) && m@
                        == "Token expired"@))
                    &&& self.spec_required() != AUTHENTICATED_ONLY@ && store.spec_has_permission(
                        c.sub,
                        self.spec_required(),
                    ) ==> (r == GateOutcome::Forward(c) || (r
                        matches GateOutcome::Unauthorized(m) && m@ == "Token expired"@))
                    &&& self.spec_required() != AUTHENTICATED_ONLY@ && !store.spec_has_permission(
                        c.sub,
                        self.spec_required(),
                    ) ==> ((r matches GateOutcome::Forbidden(m) && m@ == "Forbidden"@) || (r
                        matches GateOutcome::Unauthorized(m) && m@ == "Token expired"@))
                }
            },
    {
        let now = now_seconds();
        self.check(store, tokens, authorization, now)
    }
}

/// Relies on std::time::SystemTime::now for the process clock, read once per
/// request; nothing is promised of the reading, and a clock before the epoch
/// is reported as its start rather than a panic.
#[verifier::external_body]
fn now_seconds() -> u64 {
    SystemTime::now().duration_since(UNIX_EPOCH).map(|d| d.as_secs()).unwrap_or(0)
}

} // verus!
