use tmt_web::auth::{authenticate, decode_claims, Keys};
use tmt_web::db::sessions::{get_session, new_session, session_expired, session_from_claims};
use tmt_web::db::users::{
    confirm_user, deconfirm_user, get_invite, get_user, new_user_confirmed, update_invite_status,
};
use tmt_web::models::invite::InviteStatus;
use tmt_web::models::user::{NewConfirmedUser, NewUser};
use tmt_web::routes::auth::{authorize, logout};
use tmt_web::routes::users::create_user;
use tmt_web::store::Store;
use tmt_web::types::{AppError, AuthPayload, Claims};

fn keys() -> Keys {
    Keys::new(b"test-secret")
}

fn confirmed_user(store: &mut Store, email: &str, password: &str) -> tmt_web::models::user::User {
    new_user_confirmed(
        store,
        NewConfirmedUser {
            email: email.to_string(),
            password: password.to_string(),
            confirmed: true,
        },
    )
    .expect("user creation")
}

fn payload(email: &str, password: &str) -> AuthPayload {
    AuthPayload { client_id: email.to_string(), client_secret: password.to_string() }
}

#[test]
fn test_authorize_ok_round_trip() {
    let mut store = Store::new();
    let keys = keys();
    let user = confirmed_user(&mut store, "alice@example.com", "secret-pw");
    let body = authorize(&mut store, payload("alice@example.com", "secret-pw"), &keys, 1_000)
        .expect("login");
    assert_eq!(body.token_type, "Bearer");
    assert!(body.access_token.len() > 0);
    let claims = decode_claims(&body.access_token, &keys).expect("decode");
    assert_eq!(claims.sub, user.id);
    let sess = authenticate(&store, &body.access_token, &keys, 1_000).expect("authenticated");
    assert_eq!(sess.user_id, user.id);
    assert_eq!(sess.expires, 1_900);
}

#[test]
fn test_authorize_bad_pwd() {
    let mut store = Store::new();
    let keys = keys();
    confirmed_user(&mut store, "alice@example.com", "secret-pw");
    let r = authorize(&mut store, payload("alice@example.com", "bad_password"), &keys, 1_000);
    assert!(matches!(r, Err(AppError::WrongCredentials)));
}

#[test]
fn test_authorize_user_doesnt_exist() {
    let mut store = Store::new();
    let keys = keys();
    confirmed_user(&mut store, "alice@example.com", "secret-pw");
    let r = authorize(&mut store, payload("not-user@example.com", "secret-pw"), &keys, 1_000);
    assert!(matches!(r, Err(AppError::WrongCredentials)));
}

#[test]
fn test_authorize_user_not_confirmed() {
    let mut store = Store::new();
    let keys = keys();
    new_user_confirmed(
        &mut store,
        NewConfirmedUser {
            email: "bob@example.com".to_string(),
            password: "pw".to_string(),
            confirmed: false,
        },
    )
    .expect("user creation");
    let r = authorize(&mut store, payload("bob@example.com", "pw"), &keys, 1_000);
    assert!(matches!(r, Err(AppError::WrongCredentials)));
}

#[test]
fn test_authorize_missing_credentials() {
    let mut store = Store::new();
    let keys = keys();
    let r = authorize(&mut store, payload("", "pw"), &keys, 1_000);
    assert!(matches!(r, Err(AppError::MissingCredentials)));
    let r = authorize(&mut store, payload("a@example.com", ""), &keys, 1_000);
    assert!(matches!(r, Err(AppError::MissingCredentials)));
}

#[test]
fn test_session_singleton() {
    let mut store = Store::new();
    confirmed_user(&mut store, "alice@example.com", "pw");
    let s1 = new_session(&mut store, "alice@example.com".to_string(), 1_000).expect("first");
    let s2 = new_session(&mut store, "alice@example.com".to_string(), 5_000).expect("second");
    assert_eq!(s1.id, s2.id);
    assert_eq!(s1.expires, s2.expires);
}

#[test]
fn test_logout_invalidates_token() {
    let mut store = Store::new();
    let keys = keys();
    confirmed_user(&mut store, "alice@example.com", "pw");
    let body = authorize(&mut store, payload("alice@example.com", "pw"), &keys, 1_000)
        .expect("login");
    let lr = logout(&mut store, &body.access_token, &keys).expect("logout");
    assert!(lr.ok);
    assert!(get_session(&store, lr.session_id.clone()).expect("lookup").is_none());
    let r = authenticate(&store, &body.access_token, &keys, 1_000);
    assert!(matches!(r, Err(AppError::InvalidToken)));
}

#[test]
fn test_expired_session_rejected() {
    let mut store = Store::new();
    let keys = keys();
    confirmed_user(&mut store, "alice@example.com", "pw");
    let body = authorize(&mut store, payload("alice@example.com", "pw"), &keys, 1_000)
        .expect("login");
    // the session expires at 1_900; at that instant it is already expired
    let r = authenticate(&store, &body.access_token, &keys, 1_900);
    assert!(matches!(r, Err(AppError::ExpiredToken)));
    let ok = authenticate(&store, &body.access_token, &keys, 1_899);
    assert!(ok.is_ok());
}

#[test]
fn test_garbage_token_rejected() {
    let mut store = Store::new();
    let keys = keys();
    confirmed_user(&mut store, "alice@example.com", "pw");
    let r = authenticate(&store, "not.a.token", &keys, 1_000);
    assert!(matches!(r, Err(AppError::InvalidToken)));
    let r = decode_claims("not.a.token", &keys);
    assert!(matches!(r, Err(AppError::InvalidToken)));
}

#[test]
fn test_token_wrong_key_rejected() {
    let mut store = Store::new();
    let keys = keys();
    confirmed_user(&mut store, "alice@example.com", "pw");
    let body = authorize(&mut store, payload("alice@example.com", "pw"), &keys, 1_000)
        .expect("login");
    let other = Keys::new(b"another-secret");
    let r = authenticate(&store, &body.access_token, &other, 1_000);
    assert!(matches!(r, Err(AppError::InvalidToken)));
}

#[test]
fn test_session_from_claims_checks_both_ids() {
    let mut store = Store::new();
    let alice = confirmed_user(&mut store, "alice@example.com", "pw");
    let sess = new_session(&mut store, "alice@example.com".to_string(), 1_000).expect("session");
    let good = Claims { sub: alice.id.clone(), jti: sess.id.clone(), exp: sess.expires };
    assert!(session_from_claims(&store, good, 1_000).is_ok());
    let wrong_user = Claims { sub: "999".to_string(), jti: sess.id.clone(), exp: sess.expires };
    let r = session_from_claims(&store, wrong_user, 1_000);
    assert!(matches!(r, Err(AppError::InvalidToken)));
}

#[test]
fn test_create_user() {
    let mut store = Store::new();
    let resp = create_user(
        &mut store,
        NewUser { email: "carol@example.com".to_string(), password: "pw".to_string() },
        100,
    )
    .expect("signup");
    assert_eq!(resp.email, "carol@example.com");
    let user = get_user(&store, resp.user_id.clone()).expect("user");
    assert_eq!(user.email, "carol@example.com");
    assert!(!user.confirmed);
    let inv = get_invite(&store, resp.invite_id.clone()).expect("invite");
    assert_eq!(inv.user_id, resp.user_id);
    assert_eq!(inv.email, "carol@example.com");
    assert_eq!(inv.status, InviteStatus::Created);
    assert_eq!(inv.expires, 100 + 604_800);
}

#[test]
fn test_create_user_email_exists() {
    let mut store = Store::new();
    create_user(
        &mut store,
        NewUser { email: "carol@example.com".to_string(), password: "pw".to_string() },
        100,
    )
    .expect("signup");
    let r = create_user(
        &mut store,
        NewUser { email: "carol@example.com".to_string(), password: "other".to_string() },
        100,
    );
    assert!(matches!(r, Err(AppError::DBErrorWithMessage(_))));
}

#[test]
fn test_update_invite() {
    let mut store = Store::new();
    let resp = create_user(
        &mut store,
        NewUser { email: "carol@example.com".to_string(), password: "pw".to_string() },
        100,
    )
    .expect("signup");
    let inv = update_invite_status(&mut store, resp.invite_id.clone(), InviteStatus::Sent)
        .expect("update");
    assert_eq!(inv.status, InviteStatus::Sent);
}

#[test]
fn test_get_invite_doesnt_exist() {
    let store = Store::new();
    let r = get_invite(&store, "12345".to_string());
    assert!(matches!(r, Err(AppError::NotFound)));
}

#[test]
fn test_confirm_user_ok() {
    let mut store = Store::new();
    let resp = create_user(
        &mut store,
        NewUser { email: "carol@example.com".to_string(), password: "pw".to_string() },
        100,
    )
    .expect("signup");
    let user = confirm_user(
        &mut store,
        resp.invite_id.clone(),
        resp.user_id.clone(),
        "carol@example.com".to_string(),
        200,
    )
    .expect("confirm");
    assert!(user.confirmed);
    let inv = get_invite(&store, resp.invite_id.clone()).expect("invite");
    assert_eq!(inv.status, InviteStatus::Accepted);
}

#[test]
fn test_confirm_user_wrong_email() {
    let mut store = Store::new();
    let resp = create_user(
        &mut store,
        NewUser { email: "carol@example.com".to_string(), password: "pw".to_string() },
        100,
    )
    .expect("signup");
    let r = confirm_user(
        &mut store,
        resp.invite_id.clone(),
        resp.user_id.clone(),
        "other@example.com".to_string(),
        200,
    );
    assert!(matches!(r, Err(AppError::NotFound)));
    let user = get_user(&store, resp.user_id.clone()).expect("user");
    assert!(!user.confirmed);
}

#[test]
fn test_invite_expiry() {
    let mut store = Store::new();
    let resp = create_user(
        &mut store,
        NewUser { email: "carol@example.com".to_string(), password: "pw".to_string() },
        100,
    )
    .expect("signup");
    // the invite expires at 100 + 604_800; at that instant it no longer confirms
    let r = confirm_user(
        &mut store,
        resp.invite_id.clone(),
        resp.user_id.clone(),
        "carol@example.com".to_string(),
        100 + 604_800,
    );
    assert!(matches!(r, Err(AppError::NotFound)));
    let user = get_user(&store, resp.user_id.clone()).expect("user");
    assert!(!user.confirmed);
    // one second earlier it still does
    let user = confirm_user(
        &mut store,
        resp.invite_id,
        resp.user_id,
        "carol@example.com".to_string(),
        100 + 604_799,
    )
    .expect("confirm");
    assert!(user.confirmed);
}

#[test]
fn test_deconfirm_user() {
    let mut store = Store::new();
    let user = confirmed_user(&mut store, "alice@example.com", "pw");
    let d = deconfirm_user(&mut store, user.id.clone()).expect("deconfirm");
    assert_eq!(d.id, user.id);
    assert!(!get_user(&store, user.id.clone()).expect("user").confirmed);
    let r = deconfirm_user(&mut store, user.id.clone());
    assert!(matches!(r, Err(AppError::NotFound)));
}

#[test]
fn test_error_status_and_message() {
    assert_eq!(AppError::NotFound.status_code(), 404);
    assert_eq!(AppError::NotFound.message(), "Not Found");
    assert_eq!(AppError::WrongCredentials.status_code(), 403);
    assert_eq!(AppError::WrongCredentials.message(), "Wrong credentials");
    assert_eq!(AppError::ExpiredToken.status_code(), 401);
    assert_eq!(AppError::ExpiredToken.message(), "Token Expired");
    assert_eq!(AppError::InvalidToken.status_code(), 400);
    assert_eq!(
        AppError::DBErrorWithMessage("boom".to_string()).message(),
        "Database error: boom"
    );
    assert_eq!(AppError::BadRequest.message(), "Invalid request");
}

#[test]
fn test_session_expired_boundary() {
    let mut store = Store::new();
    confirmed_user(&mut store, "alice@example.com", "pw");
    let sess = new_session(&mut store, "alice@example.com".to_string(), 1_000).expect("session");
    assert!(!session_expired(&sess, 1_899));
    assert!(session_expired(&sess, 1_900));
    assert!(session_expired(&sess, 2_000));
}
