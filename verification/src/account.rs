//! Registration and login: password handling and token issuance. The
//! adaptive hash comparison is done by the `bcrypt` crate behind trusted
//! wrappers; everything else — input validation, uniqueness, which token is
//! issued and when each error is answered — is verified code.

use vstd::prelude::*;

use crate::rbac::RbacStore;
use crate::text::str_eq;
use crate::token::{token_carries, TokenService};

verus! {

/// How an account flow fails.
#[derive(Clone, Copy, Debug, PartialEq, Eq, Structural)]
pub enum AuthError {
    /// Malformed input: the password and its confirmation differ.
    BadRequest,
    /// Bad credentials; which part was wrong is deliberately not told.
    Unauthorized,
    /// The username is already registered.
    DuplicateName,
    /// Hashing the password itself failed.
    Internal,
}

/// Lifetime, in seconds, of the token issued at registration: one hour.
pub const REGISTER_TOKEN_TTL: u64 = 3600;

/// Lifetime, in seconds, of the token issued at login: one day.
pub const LOGIN_TOKEN_TTL: u64 = 86400;

// Whether this bcrypt hash text was derived from this password: the answer of
// the one-way comparison, a function of the two texts alone.
pub uninterp spec fn bcrypt_matches(password: Seq<char>, hash: Seq<char>) -> bool;

/// Relies on bcrypt::hash at the default cost. The salt is drawn fresh per
/// call, so the hash text itself varies; what holds of every outcome is that
/// the returned hash matches the password it was derived from.
#[verifier::external_body]
fn hash_password(password: &str) -> (r: Option<String>)
    ensures
        r matches Some(h) ==> bcrypt_matches(password@, h@),
{
    bcrypt::hash(password, bcrypt::DEFAULT_COST).ok()
}

/// Relies on bcrypt::verify, the constant-time comparison of a password
/// against a stored hash; its answer depends on the two arguments alone, and
/// a hash it cannot parse matches nothing.
#[verifier::external_body]
fn password_matches(password: &str, hash: &str) -> (r: bool)
    ensures
        r == bcrypt_matches(password@, hash@),
{
    bcrypt::verify(password, hash).unwrap_or(false)
}

/// Some stored identity carries this username and a hash matching this
/// password: exactly the condition under which login owes a token.
pub open spec fn spec_credentials_good(
    store: RbacStore,
    username: Seq<char>,
    password: Seq<char>,
) -> bool {
    exists|i: int|
        0 <= i < store.users@.len() && (#[trigger] store.users@[i]).username@ == username
            && bcrypt_matches(password, store.users@[i].password@)
}

/// Register an identity: a password/confirmation mismatch is a `BadRequest`,
/// a taken username a `DuplicateName`; otherwise the password is hashed, a
/// token for the fresh id is signed, and the identity is stored. On every
/// failure the store is left unchanged.
pub fn register(
    store: &mut RbacStore,
    tokens: &TokenService,
    username: &str,
    password: &str,
    confirm_password: &str,
    now: u64,
) -> (r: Result<String, AuthError>)
    requires
        old(store).wf(),
        old(store).users@.len() < i32::MAX as int,
        now + REGISTER_TOKEN_TTL <= u64::MAX,
    ensures
        final(store).wf(),
        r is Err ==> *final(store) == *old(store),
        password@ != confirm_password@ ==> r == Err::<String, AuthError>(AuthError::BadRequest),
        password@ == confirm_password@ && old(store).username_taken(username@) ==> r == Err::<
            String,
            AuthError,
        >(AuthError::DuplicateName),
        password@ == confirm_password@ && !old(store).username_taken(username@) && r is Err ==> r
            == Err::<String, AuthError>(AuthError::Internal),
        r matches Ok(t) ==> {
            &&& password@ == confirm_password@
            &&& !old(store).username_taken(username@)
            &&& token_carries(
                tokens.spec_secret(),
                t@,
                (old(store).users@.len() + 1) as i32,
                (now + REGISTER_TOKEN_TTL) as u64,
            )
            &&& final(store).users@.len() == old(store).users@.len() + 1
            &&& final(store).users@.drop_last() == old(store).users@
            &&& final(store).users@.last().id == old(store).users@.len() + 1
            &&& final(store).users@.last().username@ == username@
            &&& bcrypt_matches(password@, final(store).users@.last().password@)
            &&& final(store).roles@ == old(store).roles@
            &&& final(store).permissions@ == old(store).permissions@
            &&& final(store).role_permissions@ == old(store).role_permissions@
            &&& final(store).users_roles@ == old(store).users_roles@
            &&& spec_credentials_good(*final(store), username@, password@)
        },
{
    if !str_eq(password, confirm_password) {
        return Err(AuthError::BadRequest);
    }
    if store.find_user_by_name(username).is_some() {
        return Err(AuthError::DuplicateName);
    }
    let hashed = match hash_password(password) {
        Some(h) => h,
        None => {
            return Err(AuthError::Internal);
        },
    };
    let sub = (store.users.len() + 1) as i32;
    let token = tokens.issue(sub, REGISTER_TOKEN_TTL, now);
    match store.create_user(username, hashed.as_str()) {
        Ok(_) => {
            proof {
                let last = store.users@.len() - 1;
                assert(store.users@[last].username@ == username@);
                assert(bcrypt_matches(password@, store.users@[last].password@));
            }
            Ok(token)
        },
        Err(_) => Err(AuthError::Internal),
    }
}

/// Log an identity in: a token for its id is returned exactly when some
/// stored identity carries the username and a hash matching the password;
/// any other pair is answered `Unauthorized`, never saying which part was
/// wrong. The token's subject is the identity's id — usernames are mutable
/// display data.
pub fn login(
    store: &RbacStore,
    tokens: &TokenService,
    username: &str,
    password: &str,
    now: u64,
) -> (r: Result<String, AuthError>)
    requires
        store.wf(),
        now + LOGIN_TOKEN_TTL <= u64::MAX,
    ensures
        r is Ok <==> spec_credentials_good(*store, username@, password@),
        r is Err ==> r == Err::<String, AuthError>(AuthError::Unauthorized),
        r matches Ok(t) ==> exists|i: int|
            0 <= i < store.users@.len() && {
                let u = #[trigger] store.users@[i];
                &&& u.username@ == username@
                &&& bcrypt_matches(password@, u.password@)
                &&& token_carries(
                    tokens.spec_secret(),
                    t@,
                    u.id,
                    (now + LOGIN_TOKEN_TTL) as u64,
                )
            },
{
    let found = store.find_user_by_name(username);
    let user = match found {
        Some(u) => u,
        None => {
            proof {
                if spec_credentials_good(*store, username@, password@) {
                    let i = choose|i: int|
                        0 <= i < store.users@.len() && (#[trigger] store.users@[i]).username@
                            == username@ && bcrypt_matches(password@, store.users@[i].password@);
                    assert(store.username_taken(username@));
                }
            }
            return Err(AuthError::Unauthorized);
        },
    };
    let ghost wi = choose|i: int|
        0 <= i < store.users@.len() && {
            let w = #[trigger] store.users@[i];
            w.id == user.id && w.username@ == user.username@ && w.password@ == user.password@
        };
    if !password_matches(password, user.password.as_str()) {
        proof {
            if spec_credentials_good(*store, username@, password@) {
                let j = choose|j: int|
                    0 <= j < store.users@.len() && (#[trigger] store.users@[j]).username@
                        == username@ && bcrypt_matches(password@, store.users@[j].password@);
                assert(store.users@[wi].username@ == store.users@[j].username@);
                assert(wi == j);
                assert(false);
            }
        }
        return Err(AuthError::Unauthorized);
    }
    let t = tokens.issue(user.id, LOGIN_TOKEN_TTL, now);
    proof {
        assert(0 <= wi < store.users@.len() && {
            let u = store.users@[wi];
            &&& u.username@ == username@
            &&& bcrypt_matches(password@, u.password@)
            &&& token_carries(tokens.spec_secret(), t@, u.id, (now + LOGIN_TOKEN_TTL) as u64)
        });
    }
    Ok(t)
}

} // verus!
