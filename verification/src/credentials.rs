//! Minting and checking of time-limited credentials.
//!
//! A credential is a `(username, password)` pair. The username is an
//! expiry instant written as decimal text; the password is the standard
//! base64 encoding of the HMAC-SHA1 digest of the username keyed by the
//! process-wide shared secret. Nothing else enters the derivation, so a
//! credential can be re-derived and checked from the same two inputs
//! without any server-side state.

use base64::Engine;
use hmac::{KeyInit, Mac};
use vstd::prelude::*;

use crate::decimal::{dec_rep, dec_val, is_dec_seq, lemma_dec_rep_val, parse_decimal,
    u64_to_decimal};

verus! {

/// How long a freshly minted credential stays valid: five days.
pub const DEFAULT_TTL_SECS: u64 = 432000;

/// The secret shared between this process and the parties allowed to ask
/// for credentials. Immutable for the process lifetime; never logged.
pub struct SharedSecret {
    pub text: String,
}

/// A `(username, password)` pair handed to a client.
pub struct Credential {
    pub username: String,
    pub password: String,
}

/// What HMAC-SHA1 returns for a key and a message, each taken as the
/// UTF-8 bytes of the given text. Left uninterpreted: the digest is
/// computed by an outside crate and depends on nothing but its arguments.
pub uninterp spec fn hmac_sha1_of(key: Seq<char>, msg: Seq<char>) -> Seq<u8>;

/// What the standard padded base64 alphabet encodes a byte string to.
pub uninterp spec fn base64_of(bytes: Seq<u8>) -> Seq<char>;

/// Relies on `hmac::Hmac<sha1::Sha1>` (RustCrypto's `Mac` trait): the
/// digest is a function of key and message alone and is 20 bytes long
/// (the SHA-1 output size); HMAC accepts keys of any length.
#[verifier::external_body]
fn hmac_sha1(key: &str, msg: &str) -> (r: Vec<u8>)
    ensures
        r@ == hmac_sha1_of(key@, msg@),
        r@.len() == 20,
{
    let mut mac = <hmac::Hmac<sha1::Sha1> as KeyInit>::new_from_slice(key.as_bytes()).expect(
        "HMAC accepts keys of any length",
    );
    mac.update(msg.as_bytes());
    mac.finalize().into_bytes().to_vec()
}

/// Relies on `base64::prelude::BASE64_STANDARD.encode`: standard padded
/// base64, four output characters for every three input bytes rounded up,
/// a function of the input bytes alone.
#[verifier::external_body]
fn base64_encode(bytes: &Vec<u8>) -> (r: String)
    ensures
        r@ == base64_of(bytes@),
        r@.len() == (bytes@.len() + 2) / 3 * 4,
{
    base64::prelude::BASE64_STANDARD.encode(bytes.as_slice())
}

/// The username that encodes an expiry instant.
pub open spec fn spec_username(expiry: nat) -> Seq<char> {
    dec_rep(expiry)
}

/// The password derived from a shared secret and a username.
pub open spec fn spec_password(secret: Seq<char>, username: Seq<char>) -> Seq<char> {
    base64_of(hmac_sha1_of(secret, username))
}

/// When a claimed `(username, password)` pair is valid at instant `now`:
/// the username is decimal text for an expiry instant that has not passed,
/// and the password is exactly the one derived from the shared secret.
pub open spec fn spec_credential_ok(
    secret: Seq<char>,
    username: Seq<char>,
    password: Seq<char>,
    now: u64,
) -> bool {
    &&& is_dec_seq(username)
    &&& dec_val(username) <= u64::MAX
    &&& dec_val(username) >= now
    &&& password == spec_password(secret, username)
}

impl SharedSecret {
    pub fn new(text: String) -> (s: SharedSecret)
        ensures
            s.text@ == text@,
    {
        SharedSecret { text }
    }

    /// The password this secret derives for a given username.
    pub fn derive_password(&self, username: &str) -> (p: String)
        ensures
            p@ == spec_password(self.text@, username@),
            p@.len() == 28,
    {
        let digest = hmac_sha1(self.text.as_str(), username);
        base64_encode(&digest)
    }

    /// Mints the credential that expires at `expiry`.
    pub fn mint_credential(&self, expiry: u64) -> (c: Credential)
        ensures
            c.username@ == spec_username(expiry as nat),
            c.password@ == spec_password(self.text@, c.username@),
            c.password@.len() == 28,
    {
        let username = u64_to_decimal(expiry);
        let password = self.derive_password(username.as_str());
        Credential { username, password }
    }

    /// The one line of text the credential service writes to a caller:
    /// `username:password` for a credential minted at `now` with the
    /// given time to live. Returns `None` only when `now + ttl_secs`
    /// does not fit in a `u64`.
    pub fn issue_line(&self, now: u64, ttl_secs: u64) -> (r: Option<String>)
        ensures
            r is Some <==> now + ttl_secs <= u64::MAX,
            r is Some ==> r->Some_0@ == spec_issue_line(self.text@, (now + ttl_secs) as nat),
    {
        if ttl_secs > u64::MAX - now {
            return None;
        }
        let expiry = now + ttl_secs;
        let c = self.mint_credential(expiry);
        let mut line = c.username;
        line.append(":");
        line.append(c.password.as_str());
        proof {
            reveal_strlit(":");
            assert(":"@ =~= seq![':']);
            assert(line@ =~= spec_issue_line(self.text@, (now + ttl_secs) as nat));
        }
        Some(line)
    }

    /// Checks a claimed credential pair at instant `now`.
    pub fn verify_credential(&self, username: &str, password: &str, now: u64) -> (ok: bool)
        ensures
            ok == spec_credential_ok(self.text@, username@, password@, now),
    {
        match parse_decimal(username) {
            Option::None => false,
            Option::Some(expiry) => {
                if expiry < now {
                    false
                } else {
                    let expected = self.derive_password(username);
                    let claimed = password.to_owned();
                    claimed.eq(&expected)
                }
            },
        }
    }
}

/// The text of an issued credential line: username, a colon, password.
pub open spec fn spec_issue_line(secret: Seq<char>, expiry: nat) -> Seq<char> {
    spec_username(expiry) + seq![':'] + spec_password(secret, spec_username(expiry))
}

/// Issuance is deterministic: two credentials derived from the same
/// shared secret for the same expiry instant are identical.
pub proof fn lemma_issue_deterministic(
    secret: Seq<char>,
    expiry: u64,
    u1: Seq<char>,
    p1: Seq<char>,
    u2: Seq<char>,
    p2: Seq<char>,
)
    requires
        u1 == spec_username(expiry as nat),
        p1 == spec_password(secret, u1),
        u2 == spec_username(expiry as nat),
        p2 == spec_password(secret, u2),
    ensures
        u1 == u2,
        p1 == p2,
{
}

/// A minted credential is accepted exactly while its expiry instant has
/// not passed: valid at any `now <= expiry`, rejected at any `now > expiry`.
pub proof fn lemma_minted_credential_window(secret: Seq<char>, expiry: u64, now: u64)
    ensures
        spec_credential_ok(
            secret,
            spec_username(expiry as nat),
            spec_password(secret, spec_username(expiry as nat)),
            now,
        ) <==> now <= expiry,
{
    lemma_dec_rep_val(expiry as nat);
}

/// A tampered password never validates: a pair whose password is anything
/// but the one derived from the shared secret and username is rejected.
pub proof fn lemma_tampered_password_rejected(
    secret: Seq<char>,
    username: Seq<char>,
    password: Seq<char>,
    now: u64,
)
    requires
        password != spec_password(secret, username),
    ensures
        !spec_credential_ok(secret, username, password, now),
{
}

} // verus!
