//! The authentication gate against the real hashing: seeding, login,
//! session issue and expiry, and the guarded password change.
use stockbook::auth::{
    check_session, hash_password, issue_session, session_valid_at, verify_password,
    SESSION_WINDOW_SECS,
};
use stockbook::domain::{AppError, AuthSession};
use stockbook::store::Store;

fn seeded_store() -> Store {
    let mut st = Store::new();
    let hash = hash_password("correct horse").unwrap();
    assert!(st.seed_admin("admin@example.com".to_string(), hash));
    st
}

#[test]
fn seed_admin_only_when_empty() {
    let mut st = Store::new();
    let h1 = hash_password("first").unwrap();
    let h2 = hash_password("second").unwrap();
    assert!(st.seed_admin("admin@example.com".to_string(), h1));
    assert!(!st.seed_admin("someone@else".to_string(), h2));
    let r = st.authenticate(&"someone@else".to_string(), "second");
    assert_eq!(r.unwrap_err(), AppError::Auth);
}

#[test]
fn hash_then_verify_round_trip() {
    let hash = hash_password("a password").unwrap();
    assert!(hash.starts_with("$argon2"));
    assert_eq!(verify_password(&hash, "a password").unwrap(), true);
    assert_eq!(verify_password(&hash, "another password").unwrap(), false);
    assert!(verify_password("not a phc string", "x").is_err());
}

#[test]
fn wrong_password_twice_then_right_one() {
    let st = seeded_store();
    let user = "admin@example.com".to_string();
    assert_eq!(st.authenticate(&user, "bad").unwrap_err(), AppError::Auth);
    assert_eq!(st.authenticate(&user, "bad").unwrap_err(), AppError::Auth);
    let session = st.authenticate(&user, "correct horse").unwrap();
    assert!(!session.token.is_empty());
    assert!(session.token.len() <= 32);
    assert!(session
        .token
        .chars()
        .all(|c| c.is_ascii_digit() || ('a'..='f').contains(&c)));
}

#[test]
fn unknown_user_is_the_same_auth_error() {
    let st = seeded_store();
    let err = st
        .authenticate(&"nobody@example.com".to_string(), "correct horse")
        .unwrap_err();
    assert_eq!(err, AppError::Auth);
}

#[test]
fn issued_session_expires_thirty_days_out() {
    let now = 1_700_000_000i64;
    let s = issue_session("tok".to_string(), now).unwrap();
    assert_eq!(s.token, "tok");
    assert_eq!(s.expires_at, now + 30 * 86400);
    assert_eq!(s.expires_at, now + SESSION_WINDOW_SECS);
}

#[test]
fn session_validity_is_strict_and_never_refreshed() {
    let s = AuthSession {
        token: "tok".to_string(),
        expires_at: 1000,
    };
    assert!(session_valid_at(&s, 999));
    assert!(!session_valid_at(&s, 1000));
    assert!(!session_valid_at(&s, 5000));
    assert!(!check_session(&None));
}

#[test]
fn check_session_against_the_clock() {
    let expired = AuthSession {
        token: "tok".to_string(),
        expires_at: 0,
    };
    assert!(!check_session(&Some(expired)));
    let far_future = AuthSession {
        token: "tok".to_string(),
        expires_at: i64::MAX,
    };
    assert!(check_session(&Some(far_future)));
}

#[test]
fn change_password_enforces_the_minimum_length() {
    let mut st = seeded_store();
    let old_hash = st.users[0].password.clone();
    // six characters: rejected, stored hash untouched
    let err = st.change_password("correct horse", "sixchr").unwrap_err();
    assert_eq!(err, AppError::Validation);
    assert_eq!(st.users[0].password, old_hash);
    assert_eq!(verify_password(&st.users[0].password, "correct horse").unwrap(), true);
}

#[test]
fn change_password_rejects_a_wrong_current_password() {
    let mut st = seeded_store();
    let old_hash = st.users[0].password.clone();
    let err = st.change_password("wrong", "long enough password").unwrap_err();
    assert_eq!(err, AppError::Validation);
    assert_eq!(st.users[0].password, old_hash);
}

#[test]
fn change_password_replaces_the_hash_on_success() {
    let mut st = seeded_store();
    st.change_password("correct horse", "a new password").unwrap();
    assert_eq!(verify_password(&st.users[0].password, "a new password").unwrap(), true);
    assert_eq!(verify_password(&st.users[0].password, "correct horse").unwrap(), false);
    let session = st
        .authenticate(&"admin@example.com".to_string(), "a new password")
        .unwrap();
    assert!(!session.token.is_empty());
}

#[test]
fn change_password_on_an_unseeded_store_is_not_found() {
    let mut st = Store::new();
    let err = st.change_password("x", "long enough password").unwrap_err();
    assert_eq!(err, AppError::NotFound);
}
