use argon2::password_hash::{PasswordHasher, SaltString};
use argon2::{Algorithm, Argon2, Params, Version};
use l2_login::auth::{check_credentials, decide_login, verify_password, AccountLookup, LoginDecision, RequestAuthLogin};
use l2_login::to_client::PlayerLoginFailReasons;

fn cheap_hash(password: &str) -> String {
    let params = Params::new(8, 1, 1, None).unwrap();
    let a = Argon2::new(Algorithm::Argon2id, Version::V0x13, params);
    let salt = SaltString::encode_b64(b"fixed-salt-16byt").unwrap();
    a.hash_password(password.as_bytes(), &salt).unwrap().to_string()
}

fn legacy_block(user: &[u8], password: &[u8]) -> Vec<u8> {
    let mut b = vec![0u8; 128];
    b[0x5E..0x5E + user.len()].copy_from_slice(user);
    b[0x6C..0x6C + password.len()].copy_from_slice(password);
    b.push(0);
    b
}

#[test]
fn hash_verifies_its_own_password_only() {
    let h = cheap_hash("pw");
    assert!(verify_password(&h, "pw"));
    assert!(!verify_password(&h, "other"));
    assert!(!verify_password("not a hash", "pw"));
}

#[test]
fn empty_credentials_are_refused() {
    let wrong = LoginDecision::Reject(PlayerLoginFailReasons::ReasonUserOrPassWrong);
    assert_eq!(decide_login("", "pw", AccountLookup::Found { password_ok: true }, true), wrong);
    assert_eq!(decide_login("alice", "", AccountLookup::Missing, true), wrong);
    assert_eq!(check_credentials("", "", None, true), wrong);
}

#[test]
fn login_decisions() {
    let h = cheap_hash("pw");
    assert_eq!(check_credentials("alice", "pw", Some(&h), false), LoginDecision::Accept);
    assert_eq!(
        check_credentials("alice", "bad", Some(&h), true),
        LoginDecision::Reject(PlayerLoginFailReasons::ReasonUserOrPassWrong)
    );
    assert_eq!(check_credentials("alice", "pw", None, true), LoginDecision::Register);
    assert_eq!(
        check_credentials("alice", "pw", None, false),
        LoginDecision::Reject(PlayerLoginFailReasons::ReasonUserOrPassWrong)
    );
}

#[test]
fn username_with_nuls_is_trimmed() {
    let block = legacy_block(b"alice\0\0\0", b"pw\0\0 ");
    let r = RequestAuthLogin::read(&block).unwrap();
    assert_eq!(r.username, "alice");
    assert_eq!(r.password, "pw");
    assert!(!r.is_new_auth);
}

#[test]
fn new_auth_layout_joins_user_parts() {
    let mut b = vec![0u8; 256];
    b[0x4E..0x4E + 3].copy_from_slice(b"ali");
    b[0xCE..0xCE + 2].copy_from_slice(b"ce");
    b[0xDC..0xDC + 2].copy_from_slice(b"pw");
    b.push(1);
    let r = RequestAuthLogin::read(&b).unwrap();
    assert_eq!(r.username, "alice");
    assert_eq!(r.password, "pw");
    assert!(r.is_new_auth);
}

#[test]
fn short_block_is_not_read() {
    assert!(RequestAuthLogin::read(&[0u8; 100]).is_none());
    assert!(RequestAuthLogin::read(&[]).is_none());
}
