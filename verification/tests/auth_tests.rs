use stunts_native::auth::{is_success_status, stored_token_if_valid, token_if_unexpired, AuthState, AuthToken};

fn token(expiry: Option<i64>) -> AuthToken {
    AuthToken { token: "jwt".to_string(), expiry }
}

#[test]
fn creating_projects_needs_sign_in() {
    assert!(!AuthState::signed_out().can_create_projects());
    let s = AuthState::signed_in(token(None), None);
    assert!(s.can_create_projects());
    assert!(s.is_authenticated);
    assert_eq!(s.token.unwrap().token, "jwt");
}

#[test]
fn expiry_is_strictly_after_now() {
    assert!(token_if_unexpired(token(Some(101)), 100).is_some());
    assert!(token_if_unexpired(token(Some(100)), 100).is_none());
    assert!(token_if_unexpired(token(Some(99)), 100).is_none());
    assert_eq!(token_if_unexpired(token(None), i64::MAX).unwrap().token, "jwt");
}

#[test]
fn stored_token_against_the_clock() {
    assert!(stored_token_if_valid(token(None)).is_some());
    assert!(stored_token_if_valid(token(Some(0))).is_none());
    assert!(stored_token_if_valid(token(Some(i64::MAX))).is_some());
}

#[test]
fn success_statuses() {
    assert!(is_success_status(200));
    assert!(is_success_status(299));
    assert!(!is_success_status(300));
    assert!(!is_success_status(199));
    assert!(!is_success_status(404));
}
