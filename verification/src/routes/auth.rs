use crate::auth::{decode_claims, token_of, Keys};
use crate::db::sessions::{
    delete_session, new_session, spec_delete_session, spec_new_session, SESSION_TTL_SECONDS,
};
use crate::db::{spec_validate_password, validate_password};
use crate::models::session::SessionV;
use crate::store::{Store, StoreV};
use crate::types::{
    res_v, AppError, AppErrorV, AuthBody, AuthBodyV, AuthPayload, AuthPayloadV, LogoutResult,
};
use vstd::prelude::*;

verus! {

/// The whole login exchange: reject empty credentials, verify the password,
/// create or reuse the user's single session, and issue a signed token over
/// `{sub = user id, jti = session id, exp = session expiry}`. A missing user,
/// a wrong password and an unconfirmed account all collapse into the same
/// credentials error.
pub open spec fn spec_authorize(
    s: StoreV,
    payload: AuthPayloadV,
    secret: Seq<u8>,
    now: int,
) -> (StoreV, Result<AuthBodyV, AppErrorV>) {
    if payload.client_id.len() == 0 || payload.client_secret.len() == 0 {
        (s, Err(AppErrorV::MissingCredentials))
    } else {
        match spec_validate_password(s, payload.client_id, payload.client_secret) {
            Err(e) => (s, Err(e)),
            Ok(false) => (s, Err(AppErrorV::WrongCredentials)),
            Ok(true) => {
                let (s2, r2) = spec_new_session(s, payload.client_id, now);
                match r2 {
                    Err(e) => (s2, Err(e)),
                    Ok(sess) => (
                        s2,
                        Ok(
                            AuthBodyV {
                                access_token: token_of(secret, sess.user_id, sess.id, sess.expires),
                                token_type: "Bearer"@,
                            },
                        ),
                    ),
                }
            },
        }
    }
}

/// Logs a client in. On success the store holds exactly one live session for
/// the user and the reply carries its bearer token; the one failure the spec
/// above does not pin down is a signer-internal error, which leaves the
/// session in place but yields no token.
pub fn authorize(store: &mut Store, payload: AuthPayload, keys: &Keys, now: i64) -> (r: Result<
    AuthBody,
    AppError,
>)
    requires
        old(store)@.wf(),
        old(store)@.next_id < u64::MAX,
        now <= i64::MAX - SESSION_TTL_SECONDS,
    ensures
        final(store)@.wf(),
        ({
            let (s2, res) = spec_authorize(old(store)@, payload@, keys.spec_secret(), now as int);
            final(store)@ == s2 && (res_v(r) == res || (res is Ok && (r matches Err(e)
                && e is TokenCreation)))
        }),
{
    if payload.client_id.as_str().is_empty() || payload.client_secret.as_str().is_empty() {
        return Err(AppError::MissingCredentials);
    }
    let email = payload.client_id.clone();
    let pwd_valid = match validate_password(store, email, payload.client_secret) {
        Err(e) => {
            return Err(e);
        },
        Ok(b) => b,
    };
    if !pwd_valid {
        return Err(AppError::WrongCredentials);
    }
    let session = match new_session(store, payload.client_id, now) {
        Err(e) => {
            return Err(e);
        },
        Ok(s) => s,
    };
    let claims = crate::types::Claims::from_session(&session);
    let token = match claims.to_token(keys) {
        Err(e) => {
            return Err(e);
        },
        Ok(t) => t,
    };
    Ok(AuthBody::new(token))
}

/// Logging out deletes the session the token's `jti` names, so the id in the
/// reply no longer exists in the store; a token that does not decode changes
/// nothing. The deletion is unconditional: even a token whose session is
/// already gone logs out cleanly.
pub fn logout(store: &mut Store, token: &str, keys: &Keys) -> (r: Result<LogoutResult, AppError>)
    requires
        old(store)@.wf(),
    ensures
        final(store)@.wf(),
        r matches Err(e) ==> e is InvalidToken && final(store)@ == old(store)@,
        r matches Ok(lr) ==> lr@.ok && final(store)@ == spec_delete_session(
            old(store)@,
            lr@.session_id,
        ) && !final(store)@.has_session_id(lr@.session_id),
        forall|s: Seq<char>, j: Seq<char>, e: int|
            token@ == #[trigger] token_of(keys.spec_secret(), s, j, e) ==> (r matches Ok(lr)
                && lr@.session_id == j),
{
    let claims = match decode_claims(token, keys) {
        Err(e) => {
            return Err(e);
        },
        Ok(c) => c,
    };
    let sess_id = claims.jti.clone();
    match delete_session(store, claims.jti) {
        Err(e) => {
            return Err(e);
        },
        Ok(_) => {},
    }
    proof {
        let s0 = old(store)@;
        if s0.has_session_id(sess_id@) {
            let i = s0.session_idx_by_id(sess_id@);
            assert(0 <= i < s0.sessions.len() && s0.sessions[i].id == sess_id@);
            assert forall|k: int|
                #![trigger store@.sessions[k]]
                0 <= k < store@.sessions.len() implies store@.sessions[k].id != sess_id@ by {
                let k0 = if k < i {
                    k
                } else {
                    k + 1
                };
                assert(store@.sessions[k] == s0.sessions[k0]);
            }
        }
    }
    Ok(LogoutResult::new(sess_id))
}


/// Login round-trip, success half: a confirmed account whose stored
/// credential matches logs in; the issued token is signed over that user's
/// id and their single session, so a decoder that honours `decode_post`
/// hands back claims whose subject is exactly that user and whose token id
/// is that session.
pub proof fn lemma_login_round_trip(
    s: StoreV,
    payload: AuthPayloadV,
    secret: Seq<u8>,
    now: int,
    dr: Result<crate::types::Claims, AppError>,
)
    requires
        s.wf(),
        payload.client_id.len() > 0,
        payload.client_secret.len() > 0,
        s.has_user_email(payload.client_id),
        s.users[s.user_idx_by_email(payload.client_id)].confirmed,
        s.users[s.user_idx_by_email(payload.client_id)].password == payload.client_secret,
        crate::auth::decode_post(
            dr,
            spec_authorize(s, payload, secret, now).1->Ok_0.access_token,
            secret,
        ),
    ensures
        ({
            let (s2, res) = spec_authorize(s, payload, secret, now);
            let u = s.users[s.user_idx_by_email(payload.client_id)];
            res matches Ok(b) && b.token_type == "Bearer"@ && (dr matches Ok(c) && c.sub@ == u.id
                && s2.has_session_claim(c.jti@, u.id))
        }),
{
    let ui = s.user_idx_by_email(payload.client_id);
    assert(0 <= ui < s.users.len() && s.users[ui].email == payload.client_id);
    let u = s.users[ui];
    let (s1, r1) = spec_new_session(s, payload.client_id, now);
    if s.has_session_for_user(u.id) {
        let w = s.session_idx_by_user(u.id);
        assert(0 <= w < s.sessions.len() && s.sessions[w].user_id == u.id);
        assert(r1 matches Ok(sess) && sess.user_id == u.id && s1.has_session_claim(
            sess.id,
            u.id,
        ));
    } else {
        let sess = SessionV {
            id: crate::ids::dec_digits(s.next_id),
            user_id: u.id,
            expires: now + SESSION_TTL_SECONDS,
        };
        assert(s1.sessions[s1.sessions.len() - 1] == sess);
        assert(r1 matches Ok(ses) && ses.user_id == u.id && s1.has_session_claim(ses.id, u.id));
    }
    let sess = r1->Ok_0;
    let (s2, res) = spec_authorize(s, payload, secret, now);
    assert(res matches Ok(b) && b.access_token == token_of(secret, u.id, sess.id, sess.expires));
}

/// Login round-trip, failure half: a wrong password, an unknown email and an
/// unconfirmed account all answer the same credentials error and leave the
/// store untouched.
pub proof fn lemma_login_wrong_credentials(s: StoreV, payload: AuthPayloadV, secret: Seq<u8>, now: int)
    requires
        s.wf(),
        payload.client_id.len() > 0,
        payload.client_secret.len() > 0,
        !s.has_user_email(payload.client_id) || !s.users[s.user_idx_by_email(
            payload.client_id,
        )].confirmed || s.users[s.user_idx_by_email(payload.client_id)].password
            != payload.client_secret,
    ensures
        spec_authorize(s, payload, secret, now) == (s, Err::<AuthBodyV, AppErrorV>(
            AppErrorV::WrongCredentials,
        )),
{
}

} // verus!
