//! The authentication capability handed to the external relay engine.
//!
//! When a relay client claims a credential, the engine asks for the key
//! material to check the client's proof against. The adapter parses the
//! claimed username as an expiry instant, rejects it when it is malformed
//! or already past, and otherwise re-derives the password from the shared
//! secret and returns the engine's long-term-credential key for it —
//! exactly the key a credential minted by this process validates against.

use vstd::prelude::*;

use crate::credentials::{spec_password, SharedSecret};
use crate::decimal::{dec_val, is_dec_seq, parse_decimal};

verus! {

/// Why an authentication request was rejected.
#[derive(Clone, Copy, PartialEq, Eq, Structural, Debug)]
pub enum AuthError {
    /// The claimed username is not decimal text for a `u64` instant.
    MalformedUsername,
    /// The expiry instant the username encodes has passed.
    Expired,
}

/// A username that names a checkable expiry instant: non-empty decimal
/// text whose value fits in a `u64`.
pub open spec fn spec_username_parses(username: Seq<char>) -> bool {
    is_dec_seq(username) && dec_val(username) <= u64::MAX
}

/// What the external engine's long-term-credential key derivation returns
/// for a username, realm and password. Left uninterpreted: the key is
/// computed by an outside crate and depends on nothing but its arguments.
pub uninterp spec fn auth_key_of(username: Seq<char>, realm: Seq<char>, password: Seq<char>) -> Seq<
    u8,
>;

/// Relies on `turn::auth::generate_auth_key`: the MD5 digest of
/// `"{username}:{realm}:{password}"`, 16 bytes, a function of its
/// arguments alone.
#[verifier::external_body]
fn generate_auth_key(username: &str, realm: &str, password: &str) -> (r: Vec<u8>)
    ensures
        r@ == auth_key_of(username@, realm@, password@),
        r@.len() == 16,
{
    turn::auth::generate_auth_key(username, realm, password)
}

/// Validates claimed usernames for the relay engine. Holds only the
/// shared secret; stateless, so one adapter serves any number of
/// concurrent authentication checks.
pub struct AuthAdapter {
    pub secret: SharedSecret,
}

impl AuthAdapter {
    pub fn new(secret: SharedSecret) -> (a: AuthAdapter)
        ensures
            a.secret.text@ == secret.text@,
    {
        AuthAdapter { secret }
    }

    /// Answers the engine's authentication callback at instant `now`:
    /// the key material for a well-formed, unexpired username, or the
    /// reason for rejection.
    pub fn authenticate(&self, username: &str, realm: &str, now: u64) -> (r: Result<
        Vec<u8>,
        AuthError,
    >)
        ensures
            r is Ok <==> spec_username_parses(username@) && dec_val(username@) >= now,
            r is Ok ==> r->Ok_0@ == auth_key_of(
                username@,
                realm@,
                spec_password(self.secret.text@, username@),
            ) && r->Ok_0@.len() == 16,
            r == Result::<Vec<u8>, AuthError>::Err(AuthError::MalformedUsername) <==> !spec_username_parses(
                username@,
            ),
            r == Result::<Vec<u8>, AuthError>::Err(AuthError::Expired) <==> spec_username_parses(
                username@,
            ) && dec_val(username@) < now,
    {
        match parse_decimal(username) {
            Option::None => Result::Err(AuthError::MalformedUsername),
            Option::Some(expiry) => {
                if expiry < now {
                    Result::Err(AuthError::Expired)
                } else {
                    let password = self.secret.derive_password(username);
                    Result::Ok(generate_auth_key(username, realm, password.as_str()))
                }
            },
        }
    }
}

} // verus!
