use vstd::prelude::*;

use argon2::password_hash::rand_core::OsRng;
use argon2::password_hash::SaltString;
use argon2::{Argon2, PasswordHash, PasswordHasher, PasswordVerifier};
use vstd::string::StringExecFns;

use crate::to_client::PlayerLoginFailReasons;

verus! {

/// Whether an Argon2 PHC string accepts a password.
pub uninterp spec fn argon2_accepts(hash: Seq<char>, password: Seq<char>) -> bool;

/// The characters that lossy UTF-8 decoding makes of some bytes.
pub uninterp spec fn utf8_lossy_of(b: Seq<u8>) -> Seq<char>;

/// Relies on `argon2`: `PasswordHash::new` parses the PHC string and
/// `Argon2::verify_password` recomputes the hash with the parameters and salt it holds;
/// the answer depends on the two strings alone. An unparsable string accepts nothing.
#[verifier::external_body]
fn argon2_verify(hash: &str, password: &str) -> (r: bool)
    ensures
        r == argon2_accepts(hash@, password@),
{
    match PasswordHash::new(hash) {
        Ok(parsed) => Argon2::default().verify_password(password.as_bytes(), &parsed).is_ok(),
        Err(_) => false,
    }
}

/// Relies on `argon2`: `Argon2::hash_password` with a salt drawn by
/// `SaltString::generate` from the operating system; the PHC string differs from call
/// to call, and it carries the salt and parameters that `verify_password` recomputes
/// with, so it accepts the password it was made from.
#[verifier::external_body]
pub(crate) fn argon2_hash(password: &str) -> (r: Option<String>)
    ensures
        r is Some ==> argon2_accepts(r->Some_0@, password@),
{
    let salt = SaltString::generate(&mut OsRng);
    match Argon2::default().hash_password(password.as_bytes(), &salt) {
        Ok(h) => Some(h.to_string()),
        Err(_) => None,
    }
}

/// Relies on `String::from_utf8_lossy`: ASCII bytes decode to the characters with
/// those codes.
#[verifier::external_body]
fn utf8_lossy(b: &[u8]) -> (r: String)
    ensures
        r@ == utf8_lossy_of(b@),
        (forall|i: int| 0 <= i < b@.len() ==> b@[i] < 0x80) ==> r@ == b@.map_values(|x: u8| x as char),
{
    String::from_utf8_lossy(b).into_owned()
}

/// Bytes that pad a credential field: NUL and ASCII white space.
pub open spec fn is_pad_byte(b: u8) -> bool {
    b == 0 || b == 0x20 || (0x09 <= b <= 0x0D)
}

/// A field without its trailing padding.
pub open spec fn rtrim(b: Seq<u8>) -> Seq<u8>
    decreases b.len(),
{
    if b.len() > 0 && is_pad_byte(b.last()) {
        rtrim(b.drop_last())
    } else {
        b
    }
}

/// The text of a credential field: trailing padding removed, then decoded.
pub open spec fn field_text(b: Seq<u8>) -> Seq<char> {
    utf8_lossy_of(rtrim(b))
}

/// Where the fields lie in a decrypted login block.
pub const LEGACY_USER_AT: usize = 0x5E;
pub const LEGACY_USER_LEN: usize = 14;
pub const LEGACY_PASSWORD_AT: usize = 0x6C;
pub const NEW_USER1_AT: usize = 0x4E;
pub const NEW_USER1_LEN: usize = 50;
pub const NEW_USER2_AT: usize = 0xCE;
pub const NEW_USER2_LEN: usize = 14;
pub const NEW_PASSWORD_AT: usize = 0xDC;
pub const PASSWORD_LEN: usize = 16;

/// Username, password and layout of a decrypted login block; the last byte says which
/// layout the rest uses. `None` when the block is too short for its layout.
pub open spec fn parse_auth_login(data: Seq<u8>) -> Option<(Seq<char>, Seq<char>, bool)> {
    if data.len() == 0 {
        None
    } else {
        let body = data.drop_last();
        let new_auth = data.last() != 0;
        if new_auth {
            if body.len() < NEW_PASSWORD_AT + PASSWORD_LEN {
                None
            } else {
                Some((
                    field_text(body.subrange(NEW_USER1_AT as int, (NEW_USER1_AT + NEW_USER1_LEN) as int))
                        + field_text(
                        body.subrange(NEW_USER2_AT as int, (NEW_USER2_AT + NEW_USER2_LEN) as int),
                    ),
                    field_text(body.subrange(NEW_PASSWORD_AT as int, (NEW_PASSWORD_AT + PASSWORD_LEN) as int)),
                    true,
                ))
            }
        } else {
            if body.len() < LEGACY_PASSWORD_AT + PASSWORD_LEN {
                None
            } else {
                Some((
                    field_text(body.subrange(LEGACY_USER_AT as int, (LEGACY_USER_AT + LEGACY_USER_LEN) as int)),
                    field_text(
                        body.subrange(LEGACY_PASSWORD_AT as int, (LEGACY_PASSWORD_AT + PASSWORD_LEN) as int),
                    ),
                    false,
                ))
            }
        }
    }
}

/// The length of `b` without its trailing padding.
fn rtrim_len(b: &[u8]) -> (r: usize)
    ensures
        r <= b@.len(),
        b@.take(r as int) == rtrim(b@),
{
    let mut n = b.len();
    assert(b@.take(n as int) =~= b@);
    while n > 0 && (b[n - 1] == 0 || b[n - 1] == 0x20 || (0x09 <= b[n - 1] && b[n - 1] <= 0x0D))
        invariant
            n <= b@.len(),
            rtrim(b@.take(n as int)) == rtrim(b@),
        decreases n,
    {
        assert(b@.take(n as int).drop_last() =~= b@.take(n - 1));
        n = n - 1;
    }
    n
}

/// The text of the field at `from..to` of `body`.
fn field(body: &[u8], from: usize, to: usize) -> (r: String)
    requires
        from <= to <= body@.len(),
    ensures
        r@ == field_text(body@.subrange(from as int, to as int)),
{
    let f = vstd::slice::slice_subrange(body, from, to);
    let n = rtrim_len(f);
    let t = vstd::slice::slice_subrange(f, 0, n);
    assert(t@ =~= f@.take(n as int));
    utf8_lossy(t)
}

/// The credentials a client sends in its first encrypted packet.
#[derive(Clone, Debug)]
pub struct RequestAuthLogin {
    pub username: String,
    pub password: String,
    pub is_new_auth: bool,
}

impl RequestAuthLogin {
    /// Reads a decrypted login block. Both fields lose their trailing NULs and white
    /// space; nothing in their content makes the read fail.
    pub fn read(data: &[u8]) -> (r: Option<Self>)
        ensures
            match parse_auth_login(data@) {
                Some((u, p, n)) => r is Some && r->Some_0.username@ == u && r->Some_0.password@ == p
                    && r->Some_0.is_new_auth == n,
                None => r is None,
            },
    {
        if data.len() == 0 {
            return None;
        }
        let body = vstd::slice::slice_subrange(data, 0, data.len() - 1);
        assert(body@ =~= data@.drop_last());
        let is_new_auth = data[data.len() - 1] != 0;
        if is_new_auth {
            if body.len() < NEW_PASSWORD_AT + PASSWORD_LEN {
                return None;
            }
            let mut username = field(body, NEW_USER1_AT, NEW_USER1_AT + NEW_USER1_LEN);
            let part2 = field(body, NEW_USER2_AT, NEW_USER2_AT + NEW_USER2_LEN);
            username.append(part2.as_str());
            let password = field(body, NEW_PASSWORD_AT, NEW_PASSWORD_AT + PASSWORD_LEN);
            Some(RequestAuthLogin { username, password, is_new_auth })
        } else {
            if body.len() < LEGACY_PASSWORD_AT + PASSWORD_LEN {
                return None;
            }
            let username = field(body, LEGACY_USER_AT, LEGACY_USER_AT + LEGACY_USER_LEN);
            let password = field(body, LEGACY_PASSWORD_AT, LEGACY_PASSWORD_AT + PASSWORD_LEN);
            Some(RequestAuthLogin { username, password, is_new_auth })
        }
    }
}

/// What the user store said about an account.
#[derive(Debug, Clone, Copy, PartialEq, Eq)]
pub enum AccountLookup {
    /// No user of that name.
    Missing,
    /// The user exists; whether the presented password matched its hash.
    Found { password_ok: bool },
}

/// What the login server does with a login attempt.
#[derive(Debug, Clone, Copy, PartialEq, Eq)]
pub enum LoginDecision {
    /// The credentials are good: open a session.
    Accept,
    /// No such user and registration is automatic: create it, then open a session.
    Register,
    /// Refuse with this reason and close the link.
    Reject(PlayerLoginFailReasons),
}

pub open spec fn login_decision(
    username: Seq<char>,
    password: Seq<char>,
    account: AccountLookup,
    auto_registration: bool,
) -> LoginDecision {
    if username.len() == 0 || password.len() == 0 {
        LoginDecision::Reject(PlayerLoginFailReasons::ReasonUserOrPassWrong)
    } else {
        match account {
            AccountLookup::Found { password_ok } => if password_ok {
                LoginDecision::Accept
            } else {
                LoginDecision::Reject(PlayerLoginFailReasons::ReasonUserOrPassWrong)
            },
            AccountLookup::Missing => if auto_registration {
                LoginDecision::Register
            } else {
                LoginDecision::Reject(PlayerLoginFailReasons::ReasonUserOrPassWrong)
            },
        }
    }
}

/// Decides a login attempt from the credentials and what the user store said.
pub fn decide_login(
    username: &str,
    password: &str,
    account: AccountLookup,
    auto_registration: bool,
) -> (r: LoginDecision)
    ensures
        r == login_decision(username@, password@, account, auto_registration),
{
    if username.unicode_len() == 0 || password.unicode_len() == 0 {
        return LoginDecision::Reject(PlayerLoginFailReasons::ReasonUserOrPassWrong);
    }
    match account {
        AccountLookup::Found { password_ok } => if password_ok {
            LoginDecision::Accept
        } else {
            LoginDecision::Reject(PlayerLoginFailReasons::ReasonUserOrPassWrong)
        },
        AccountLookup::Missing => if auto_registration {
            LoginDecision::Register
        } else {
            LoginDecision::Reject(PlayerLoginFailReasons::ReasonUserOrPassWrong)
        },
    }
}

/// Checks credentials against the stored Argon2 hash of the account, if it exists,
/// and decides. Empty credentials are refused without consulting the hash.
pub fn check_credentials(
    username: &str,
    password: &str,
    stored_hash: Option<&str>,
    auto_registration: bool,
) -> (r: LoginDecision)
    ensures
        r == login_decision(
            username@,
            password@,
            match stored_hash {
                Some(h) => AccountLookup::Found { password_ok: argon2_accepts(h@, password@) },
                None => AccountLookup::Missing,
            },
            auto_registration,
        ),
{
    if username.unicode_len() == 0 || password.unicode_len() == 0 {
        return LoginDecision::Reject(PlayerLoginFailReasons::ReasonUserOrPassWrong);
    }
    let account = match stored_hash {
        Some(h) => AccountLookup::Found { password_ok: argon2_verify(h, password) },
        None => AccountLookup::Missing,
    };
    decide_login(username, password, account, auto_registration)
}

/// Whether `password` matches the Argon2 PHC string `hash`.
pub fn verify_password(hash: &str, password: &str) -> (r: bool)
    ensures
        r == argon2_accepts(hash@, password@),
{
    argon2_verify(hash, password)
}

/// A fresh Argon2 PHC string for `password`, with a random salt; `None` when hashing
/// fails.
pub fn hash_password(password: &str) -> (r: Option<String>)
    ensures
        r is Some ==> argon2_accepts(r->Some_0@, password@),
{
    argon2_hash(password)
}

} // verus!
