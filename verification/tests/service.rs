use rolegate::auth::{AuthService, LoginError, UserRecord};
use rolegate::gate::{
    admin_request, authorize, index_request, logout, AdminDecision, AdminPage, AuthzError,
    IndexDecision,
};
use rolegate::password::verify_password;
use rolegate::SESSION_LIFETIME;

fn key() -> Vec<u8> {
    b"0123456789abcdef".to_vec()
}

fn hash_of(password: &str) -> String {
    let enc = argon2rs::verifier::Encoded::default2i(password.as_bytes(), b"somesalt", b"", b"");
    String::from_utf8(enc.to_u8()).unwrap()
}

fn service() -> AuthService {
    let alice = UserRecord {
        username: "alice".to_string(),
        pw_hash: hash_of("correct"),
        roles: vec!["admin".to_string()],
    };
    let bob = UserRecord {
        username: "bob".to_string(),
        pw_hash: hash_of("hunter2"),
        roles: vec![],
    };
    AuthService::new(vec![alice, bob], key())
}

#[test]
fn verify_password_accepts_only_the_right_password() {
    let h = hash_of("correct");
    assert!(verify_password(h.as_str(), "correct"));
    assert!(!verify_password(h.as_str(), "wrong"));
    assert!(!verify_password(h.as_str(), ""));
}

#[test]
fn verify_password_rejects_malformed_hashes_without_panicking() {
    assert!(!verify_password("", "anything"));
    assert!(!verify_password("$argon2", "anything"));
    assert!(!verify_password("$argon2i$m=8,t=1,p=1", "anything"));
    assert!(!verify_password("$argon2i$m=8,t=1,p=1$AA$AA", "anything"));
    assert!(!verify_password("not a hash at all", "anything"));
}

#[test]
fn login_and_admin_authorization_scenario() {
    let svc = service();
    let now: u64 = 1_700_000_000;
    let token = svc.login("alice", "correct", now).expect("alice logs in");
    let claims = authorize(Some(token.as_str()), now, Some("admin"), &key())
        .expect("alice is an admin");
    assert_eq!(claims.subject, "alice");
    assert_eq!(
        authorize(Some(token.as_str()), now, Some("superadmin"), &key()),
        Err(AuthzError::Forbidden)
    );
}

#[test]
fn failed_logins_are_indistinguishable() {
    let svc = service();
    let now: u64 = 1_700_000_000;
    let unknown_user = svc.login("nonexistent_user", "anything", now);
    let wrong_password = svc.login("alice", "wrong_password", now);
    assert!(unknown_user.is_err());
    assert!(wrong_password.is_err());
    assert_eq!(unknown_user.unwrap_err(), wrong_password.unwrap_err());
    assert_eq!(
        svc.login("alice", "wrong_password", now).unwrap_err(),
        LoginError::InvalidCredentials
    );
}

#[test]
fn login_with_unusable_stored_hash_is_the_same_generic_error() {
    let broken = UserRecord {
        username: "carol".to_string(),
        pw_hash: "garbage".to_string(),
        roles: vec![],
    };
    let svc = AuthService::new(vec![broken], key());
    assert_eq!(
        svc.login("carol", "anything", 1000).unwrap_err(),
        LoginError::InvalidCredentials
    );
}

#[test]
fn authorize_without_credential_is_always_unauthenticated() {
    let now: u64 = 1_700_000_000;
    for required in [None, Some("admin"), Some("user"), Some("")] {
        assert_eq!(
            authorize(None, now, required, &key()),
            Err(AuthzError::Unauthenticated)
        );
    }
}

#[test]
fn authorize_garbage_or_expired_tokens_is_unauthenticated() {
    let svc = service();
    let now: u64 = 1_700_000_000;
    assert_eq!(
        authorize(Some("not.a.token"), now, None, &key()),
        Err(AuthzError::Unauthenticated)
    );
    let token = svc.login("alice", "correct", now).unwrap();
    // valid right up to the expiry instant, expired from it on
    assert!(authorize(Some(token.as_str()), now + SESSION_LIFETIME - 1, None, &key()).is_ok());
    assert_eq!(
        authorize(Some(token.as_str()), now + SESSION_LIFETIME, None, &key()),
        Err(AuthzError::Unauthenticated)
    );
}

#[test]
fn admin_probe_without_cookie_looks_like_not_found() {
    let svc = service();
    let now: u64 = 1_700_000_000;
    let no_cookie = admin_request(None, "index", now, &key());
    let missing_page = {
        let token = svc.login("alice", "correct", now).unwrap();
        admin_request(Some(token.as_str()), "no-such-page", now, &key())
    };
    assert!(matches!(no_cookie, AdminDecision::NotFound));
    assert!(matches!(missing_page, AdminDecision::NotFound));
}

#[test]
fn admin_without_role_is_not_found_not_forbidden_looking() {
    let svc = service();
    let now: u64 = 1_700_000_000;
    let token = svc.login("bob", "hunter2", now).unwrap();
    let r = admin_request(Some(token.as_str()), "index", now, &key());
    assert!(matches!(r, AdminDecision::NotFound));
}

#[test]
fn admin_pages_dispatch_for_admins() {
    let svc = service();
    let now: u64 = 1_700_000_000;
    let token = svc.login("alice", "correct", now).unwrap();
    match admin_request(Some(token.as_str()), "index", now, &key()) {
        AdminDecision::Show(AdminPage::Index, c) => assert_eq!(c.subject, "alice"),
        _ => panic!("expected the admin index page"),
    }
    match admin_request(Some(token.as_str()), "user", now, &key()) {
        AdminDecision::Show(AdminPage::UserView, c) => assert_eq!(c.subject, "alice"),
        _ => panic!("expected the admin user view"),
    }
}

#[test]
fn index_redirects_without_session_and_greets_with_one() {
    let svc = service();
    let now: u64 = 1_700_000_000;
    assert!(matches!(
        index_request(None, now, &key()),
        IndexDecision::RedirectToLogin
    ));
    assert!(matches!(
        index_request(Some("garbage"), now, &key()),
        IndexDecision::RedirectToLogin
    ));
    let token = svc.login("alice", "correct", now).unwrap();
    match index_request(Some(token.as_str()), now, &key()) {
        IndexDecision::Home(c) => {
            assert_eq!(c.subject, "alice");
            assert!(c.has_role("admin"));
        },
        IndexDecision::RedirectToLogin => panic!("expected the home view"),
    }
}

#[test]
fn logout_twice_equals_logout_once() {
    let once = logout(Some("token".to_string()));
    assert!(once.is_none());
    let twice = logout(once);
    assert!(twice.is_none());
    assert_eq!(logout(None), logout(Some("token".to_string())));
}
