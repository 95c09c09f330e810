use crate::ids::{dec_digits, u64_to_string};
use crate::models::session::{Session, SessionV};
use crate::store::{lemma_wf_insert_session, lemma_wf_remove_session, Store, StoreV};
use crate::types::{res_v, AppError, AppErrorV, Claims, ClaimsV};
use vstd::prelude::*;

verus! {

/// How long a fresh session lives, in seconds.
pub const SESSION_TTL_SECONDS: i64 = 900;

/// The outcome of a login's session step: resolve the email to a user; if the
/// user already has a session, hand that one back unchanged, otherwise insert
/// a fresh one that expires `SESSION_TTL_SECONDS` after `now`. An email that
/// resolves to no user surfaces as a storage-level error.
pub open spec fn spec_new_session(s: StoreV, user_email: Seq<char>, now: int) -> (StoreV, Result<
    SessionV,
    AppErrorV,
>) {
    if !s.has_user_email(user_email) {
        (s, Err(AppErrorV::DBError))
    } else {
        let uid = s.users[s.user_idx_by_email(user_email)].id;
        if s.has_session_for_user(uid) {
            (s, Ok(s.sessions[s.session_idx_by_user(uid)]))
        } else {
            let sess = SessionV {
                id: dec_digits(s.next_id),
                user_id: uid,
                expires: now + SESSION_TTL_SECONDS,
            };
            (StoreV { sessions: s.sessions.push(sess), next_id: s.next_id + 1, ..s }, Ok(sess))
        }
    }
}

/// Creates the session a login hands out, or returns the existing one: at
/// most one session per user ever exists.
pub fn new_session(store: &mut Store, user_email: String, now: i64) -> (r: Result<
    Session,
    AppError,
>)
    requires
        old(store)@.wf(),
        old(store)@.next_id < u64::MAX,
        now <= i64::MAX - SESSION_TTL_SECONDS,
    ensures
        final(store)@.wf(),
        ({
            let (s2, res) = spec_new_session(old(store)@, user_email@, now as int);
            final(store)@ == s2 && res_v(r) == res
        }),
{
    let uid_idx = match store.find_user_by_email(&user_email) {
        None => {
            return Err(AppError::DBError);
        },
        Some(i) => i,
    };
    proof {
        let j = old(store)@.user_idx_by_email(user_email@);
        assert(0 <= j < old(store)@.users.len() && old(store)@.users[j].email == user_email@);
        assert(j == uid_idx as int);
    }
    let user_id = store.users[uid_idx].id.clone();
    match store.find_session_by_user(&user_id) {
        Some(i) => {
            proof {
                let j = old(store)@.session_idx_by_user(user_id@);
                assert(0 <= j < old(store)@.sessions.len() && old(store)@.sessions[j].user_id
                    == user_id@);
                assert(j == i as int);
            }
            Ok(store.sessions[i].clone())
        },
        None => {
            let id = u64_to_string(store.next_id);
            store.next_id = store.next_id + 1;
            let sess = Session { id, user_id, expires: now + SESSION_TTL_SECONDS };
            let r = sess.clone();
            store.sessions.push(sess);
            proof {
                let s0 = old(store)@;
                let (s2, res) = spec_new_session(s0, user_email@, now as int);
                assert(store@.sessions =~= s2.sessions);
                assert(store@ == s2);
                lemma_wf_insert_session(s0, sess@);
            }
            Ok(r)
        },
    }
}

/// Looks a session up by id.
pub open spec fn spec_get_session(s: StoreV, session_id: Seq<char>) -> Option<SessionV> {
    if s.has_session_id(session_id) {
        Some(s.sessions[s.session_idx_by_id(session_id)])
    } else {
        None
    }
}

pub fn get_session(store: &Store, session_id: String) -> (r: Result<Option<Session>, AppError>)
    requires
        store@.wf(),
    ensures
        res_v(r) == Ok::<Option<SessionV>, AppErrorV>(spec_get_session(store@, session_id@)),
{
    match store.find_session_by_id(&session_id) {
        None => Ok(None),
        Some(i) => {
            proof {
                let j = store@.session_idx_by_id(session_id@);
                assert(0 <= j < store@.sessions.len() && store@.sessions[j].id == session_id@);
                assert(j == i as int);
            }
            Ok(Some(store.sessions[i].clone()))
        },
    }
}

/// Deletes the session with this id; deleting an absent session is not an
/// error and leaves the store unchanged.
pub open spec fn spec_delete_session(s: StoreV, session_id: Seq<char>) -> StoreV {
    if s.has_session_id(session_id) {
        StoreV { sessions: s.sessions.remove(s.session_idx_by_id(session_id)), ..s }
    } else {
        s
    }
}

pub fn delete_session(store: &mut Store, session_id: String) -> (r: Result<(), AppError>)
    requires
        old(store)@.wf(),
    ensures
        final(store)@.wf(),
        final(store)@ == spec_delete_session(old(store)@, session_id@),
        r is Ok,
{
    match store.find_session_by_id(&session_id) {
        None => Ok(()),
        Some(i) => {
            proof {
                let j = old(store)@.session_idx_by_id(session_id@);
                assert(0 <= j < old(store)@.sessions.len() && old(store)@.sessions[j].id
                    == session_id@);
                assert(j == i as int);
            }
            self_remove_session(store, i);
            Ok(())
        },
    }
}

/// Removes one session row and shows that well-formedness survives.
fn self_remove_session(store: &mut Store, i: usize) -> (r: Session)
    requires
        old(store)@.wf(),
        i < old(store).sessions.len(),
    ensures
        final(store)@.wf(),
        final(store)@ == (StoreV { sessions: old(store)@.sessions.remove(i as int), ..old(store)@ }),
        r@ == old(store)@.sessions[i as int],
{
    let s = store.sessions.remove(i);
    proof {
        let s0 = old(store)@;
        let s2 = StoreV { sessions: s0.sessions.remove(i as int), ..s0 };
        assert(store@.sessions =~= s2.sessions);
        assert(store@ == s2);
        lemma_wf_remove_session(s0, i as int);
    }
    s
}

/// Deletes every session of one user (under well-formedness there is at most
/// one); returns how many rows went away.
pub open spec fn spec_delete_user_sessions(s: StoreV, user_id: Seq<char>) -> (StoreV, int) {
    if s.has_session_for_user(user_id) {
        (StoreV { sessions: s.sessions.remove(s.session_idx_by_user(user_id)), ..s }, 1)
    } else {
        (s, 0)
    }
}

pub fn delete_user_sessions(store: &mut Store, user_id: String) -> (r: Result<usize, AppError>)
    requires
        old(store)@.wf(),
    ensures
        final(store)@.wf(),
        ({
            let (s2, n) = spec_delete_user_sessions(old(store)@, user_id@);
            final(store)@ == s2 && (r matches Ok(c) && c as int == n)
        }),
{
    match store.find_session_by_user(&user_id) {
        None => Ok(0),
        Some(i) => {
            proof {
                let j = old(store)@.session_idx_by_user(user_id@);
                assert(0 <= j < old(store)@.sessions.len() && old(store)@.sessions[j].user_id
                    == user_id@);
                assert(j == i as int);
            }
            self_remove_session(store, i);
            Ok(1)
        },
    }
}

/// The authoritative token check against the live session table: the claims'
/// session id and user id must match one row, and that row must not be past
/// its expiry. A missing row is an invalid token; `expires <= now` is an
/// expired one.
pub open spec fn spec_session_from_claims(s: StoreV, claims: ClaimsV, now: int) -> Result<
    SessionV,
    AppErrorV,
> {
    if !s.has_session_claim(claims.jti, claims.sub) {
        Err(AppErrorV::InvalidToken)
    } else {
        let sess = s.sessions[s.session_idx_by_claim(claims.jti, claims.sub)];
        if sess.expires <= now {
            Err(AppErrorV::ExpiredToken)
        } else {
            Ok(sess)
        }
    }
}

pub fn session_from_claims(store: &Store, claims: Claims, now: i64) -> (r: Result<
    Session,
    AppError,
>)
    requires
        store@.wf(),
    ensures
        res_v(r) == spec_session_from_claims(store@, claims@, now as int),
{
    match store.find_session_by_claim(&claims.jti, &claims.sub) {
        None => Err(AppError::InvalidToken),
        Some(i) => {
            proof {
                let j = store@.session_idx_by_claim(claims.jti@, claims.sub@);
                assert(0 <= j < store@.sessions.len() && store@.sessions[j].id == claims.jti@
                    && store@.sessions[j].user_id == claims.sub@);
                assert(j == i as int);
            }
            if store.sessions[i].expires <= now {
                Err(AppError::ExpiredToken)
            } else {
                Ok(store.sessions[i].clone())
            }
        },
    }
}

/// At most one session per user, ever: once session creation has handed out
/// a session, asking again for the same user hands back the very same
/// session and changes nothing.
pub proof fn lemma_session_singleton(s: StoreV, user_email: Seq<char>, now1: int, now2: int)
    requires
        s.wf(),
    ensures
        ({
            let (s1, r1) = spec_new_session(s, user_email, now1);
            let (s2, r2) = spec_new_session(s1, user_email, now2);
            r1 matches Ok(a) ==> (r2 matches Ok(b) && b == a && s2 == s1)
        }),
{
    let (s1, r1) = spec_new_session(s, user_email, now1);
    if r1 is Ok {
        let ui = s.user_idx_by_email(user_email);
        assert(0 <= ui < s.users.len() && s.users[ui].email == user_email);
        let uid = s.users[ui].id;
        // the first call leaves a well-formed store that has a session for uid
        if s.has_session_for_user(uid) {
            assert(s1 == s);
        } else {
            let sess = SessionV {
                id: dec_digits(s.next_id),
                user_id: uid,
                expires: now1 + SESSION_TTL_SECONDS,
            };
            lemma_wf_insert_session(s, sess);
            assert(s1.sessions[s1.sessions.len() - 1].user_id == uid);
        }
        assert(s1.wf());
        // the second call resolves the same user
        assert(s1.has_user_email(user_email)) by {
            assert(s1.users[ui].email == user_email);
        }
        let ui2 = s1.user_idx_by_email(user_email);
        assert(0 <= ui2 < s1.users.len() && s1.users[ui2].email == user_email);
        assert(ui2 == ui);
        // and finds the session the first call answered with
        let a = r1->Ok_0;
        assert(s1.has_session_for_user(uid)) by {
            if s.has_session_for_user(uid) {
                let w = s.session_idx_by_user(uid);
                assert(0 <= w < s.sessions.len() && s.sessions[w].user_id == uid);
                assert(s1.sessions[w].user_id == uid);
            }
        }
        let w2 = s1.session_idx_by_user(uid);
        assert(0 <= w2 < s1.sessions.len() && s1.sessions[w2].user_id == uid);
        if s.has_session_for_user(uid) {
            let w = s.session_idx_by_user(uid);
            assert(s1.sessions[w].user_id == uid);
            assert(w2 == w);
        } else {
            assert(w2 == s1.sessions.len() - 1);
        }
    }
}

/// Once a session is deleted, the token that referenced it is an invalid
/// token, whatever user and expiry its claims carry.
pub proof fn lemma_logout_invalidates(s: StoreV, claims: ClaimsV, now: int)
    requires
        s.wf(),
    ensures
        spec_session_from_claims(spec_delete_session(s, claims.jti), claims, now) == Err::<
            SessionV,
            AppErrorV,
        >(AppErrorV::InvalidToken),
{
    let s2 = spec_delete_session(s, claims.jti);
    if s.has_session_id(claims.jti) {
        let i = s.session_idx_by_id(claims.jti);
        assert(0 <= i < s.sessions.len() && s.sessions[i].id == claims.jti);
        assert forall|k: int|
            #![trigger s2.sessions[k]]
            0 <= k < s2.sessions.len() implies s2.sessions[k].id != claims.jti by {
            let k0 = if k < i {
                k
            } else {
                k + 1
            };
            assert(s2.sessions[k] == s.sessions[k0]);
        }
        assert(!s2.has_session_claim(claims.jti, claims.sub));
    } else {
        assert(s2 == s);
        assert(!s2.has_session_claim(claims.jti, claims.sub));
    }
}

/// A session past its expiry turns every authenticated request that bears its
/// token into an expired-token failure — the live row decides, whether or not
/// the token's own `exp` was ever looked at.
pub proof fn lemma_expired_session_rejected(s: StoreV, claims: ClaimsV, now: int)
    requires
        s.wf(),
        s.has_session_claim(claims.jti, claims.sub),
        s.sessions[s.session_idx_by_claim(claims.jti, claims.sub)].expires <= now,
    ensures
        spec_session_from_claims(s, claims, now) == Err::<SessionV, AppErrorV>(
            AppErrorV::ExpiredToken,
        ),
{
}

/// Whether a session is past its expiry at the given instant.
pub fn session_expired(session: &Session, now: i64) -> (r: bool)
    ensures
        r == (session@.expires <= now as int),
{
    session.expires <= now
}

} // verus!
