use crate::ids::{dec_digits, u64_to_string};
use crate::models::invite::{
    CreatedInvite, CreatedInviteV, Invite, InviteStatus, InviteV, NewInvite,
};
use crate::models::user::{
    CreatedUser, CreatedUserV, DeconfirmedUser, DeconfirmedUserV, NewConfirmedUser, NewUser, User,
    UserV,
};
use crate::store::{
    lemma_wf_insert_invite, lemma_wf_insert_user, lemma_wf_remove_invite, lemma_wf_update_invite,
    lemma_wf_update_user, Store, StoreV,
};
use crate::types::{res_v, AppError, AppErrorV};
use vstd::prelude::*;

verus! {

/// How long an invite can still be accepted after it is issued, in seconds.
pub const INVITE_TTL_SECONDS: i64 = 604800;

/// Inserting a user fails only when the email is already taken; the new
/// account starts unconfirmed.
pub open spec fn spec_new_user(s: StoreV, email: Seq<char>, password: Seq<char>) -> (StoreV, Result<
    CreatedUserV,
    AppErrorV,
>) {
    if s.has_user_email(email) {
        (s, Err(AppErrorV::DBErrorWithMessage("duplicate key value violates unique constraint"@)))
    } else {
        let u = UserV { id: dec_digits(s.next_id), email, password, confirmed: false };
        (
            StoreV { users: s.users.push(u), next_id: s.next_id + 1, ..s },
            Ok(CreatedUserV { id: u.id, email }),
        )
    }
}

pub fn new_user(store: &mut Store, user: NewUser) -> (r: Result<CreatedUser, AppError>)
    requires
        old(store)@.wf(),
        old(store)@.next_id < u64::MAX,
    ensures
        final(store)@.wf(),
        ({
            let (s2, res) = spec_new_user(old(store)@, user@.email, user@.password);
            final(store)@ == s2 && res_v(r) == res
        }),
{
    if let Some(_) = store.find_user_by_email(&user.email) {
        return Err(
            AppError::DBErrorWithMessage(
                "duplicate key value violates unique constraint".to_owned(),
            ),
        );
    }
    let id = u64_to_string(store.next_id);
    store.next_id = store.next_id + 1;
    let created = CreatedUser { id: id.clone(), email: user.email.clone() };
    let row = User { id, email: user.email, password: user.password, confirmed: false };
    proof {
        lemma_wf_insert_user(old(store)@, row@);
    }
    store.users.push(row);
    proof {
        let (s2, res) = spec_new_user(old(store)@, user@.email, user@.password);
        assert(store@.users =~= s2.users);
        assert(store@ == s2);
    }
    Ok(created)
}

/// Inserting a user with the confirmed flag chosen by the caller; the same
/// email-uniqueness rule applies.
pub open spec fn spec_new_user_confirmed(
    s: StoreV,
    email: Seq<char>,
    password: Seq<char>,
    confirmed: bool,
) -> (StoreV, Result<UserV, AppErrorV>) {
    if s.has_user_email(email) {
        (s, Err(AppErrorV::DBErrorWithMessage("duplicate key value violates unique constraint"@)))
    } else {
        let u = UserV { id: dec_digits(s.next_id), email, password, confirmed };
        (StoreV { users: s.users.push(u), next_id: s.next_id + 1, ..s }, Ok(u))
    }
}

pub fn new_user_confirmed(store: &mut Store, cu_data: NewConfirmedUser) -> (r: Result<
    User,
    AppError,
>)
    requires
        old(store)@.wf(),
        old(store)@.next_id < u64::MAX,
    ensures
        final(store)@.wf(),
        ({
            let (s2, res) = spec_new_user_confirmed(
                old(store)@,
                cu_data@.email,
                cu_data@.password,
                cu_data@.confirmed,
            );
            final(store)@ == s2 && res_v(r) == res
        }),
{
    if let Some(_) = store.find_user_by_email(&cu_data.email) {
        return Err(
            AppError::DBErrorWithMessage(
                "duplicate key value violates unique constraint".to_owned(),
            ),
        );
    }
    let id = u64_to_string(store.next_id);
    store.next_id = store.next_id + 1;
    let row = User {
        id,
        email: cu_data.email,
        password: cu_data.password,
        confirmed: cu_data.confirmed,
    };
    let out = row.clone();
    proof {
        lemma_wf_insert_user(old(store)@, row@);
    }
    store.users.push(row);
    proof {
        let (s2, res) = spec_new_user_confirmed(
            old(store)@,
            cu_data@.email,
            cu_data@.password,
            cu_data@.confirmed,
        );
        assert(store@.users =~= s2.users);
        assert(store@ == s2);
    }
    Ok(out)
}

/// Inserting an invite for an existing user: status starts at `Created`, the
/// validity window is `INVITE_TTL_SECONDS` from `now`. An unknown user is a
/// foreign-key violation.
pub open spec fn spec_new_invite(s: StoreV, invite: crate::models::invite::NewInviteV, now: int) -> (
    StoreV,
    Result<CreatedInviteV, AppErrorV>,
) {
    if !s.has_user_id(invite.user_id) {
        (s, Err(AppErrorV::DBErrorWithMessage("violates foreign key constraint"@)))
    } else {
        let v = InviteV {
            id: dec_digits(s.next_id),
            user_id: invite.user_id,
            email: invite.email,
            status: InviteStatus::Created,
            expires: now + INVITE_TTL_SECONDS,
        };
        (
            StoreV { invites: s.invites.push(v), next_id: s.next_id + 1, ..s },
            Ok(CreatedInviteV { id: v.id, user_id: v.user_id, email: v.email }),
        )
    }
}

pub fn new_invite(store: &mut Store, invite: NewInvite, now: i64) -> (r: Result<
    CreatedInvite,
    AppError,
>)
    requires
        old(store)@.wf(),
        old(store)@.next_id < u64::MAX,
        now <= i64::MAX - INVITE_TTL_SECONDS,
    ensures
        final(store)@.wf(),
        ({
            let (s2, res) = spec_new_invite(old(store)@, invite@, now as int);
            final(store)@ == s2 && res_v(r) == res
        }),
{
    if store.find_user_by_id(&invite.user_id).is_none() {
        return Err(AppError::DBErrorWithMessage("violates foreign key constraint".to_owned()));
    }
    let id = u64_to_string(store.next_id);
    store.next_id = store.next_id + 1;
    let created = CreatedInvite {
        id: id.clone(),
        user_id: invite.user_id.clone(),
        email: invite.email.clone(),
    };
    let row = Invite {
        id,
        user_id: invite.user_id,
        email: invite.email,
        status: InviteStatus::Created,
        expires: now + INVITE_TTL_SECONDS,
    };
    proof {
        lemma_wf_insert_invite(old(store)@, row@);
    }
    store.invites.push(row);
    proof {
        let (s2, res) = spec_new_invite(old(store)@, invite@, now as int);
        assert(store@.invites =~= s2.invites);
        assert(store@ == s2);
    }
    Ok(created)
}

/// Setting an invite's status unconditionally, whatever it was before; only
/// an absent invite fails.
pub open spec fn spec_update_invite_status(
    s: StoreV,
    invite_id: Seq<char>,
    update_status: InviteStatus,
) -> (StoreV, Result<InviteV, AppErrorV>) {
    if !s.has_invite_id(invite_id) {
        (s, Err(AppErrorV::NotFound))
    } else {
        let i = s.invite_idx_by_id(invite_id);
        let v2 = InviteV { status: update_status, ..s.invites[i] };
        (StoreV { invites: s.invites.update(i, v2), ..s }, Ok(v2))
    }
}

pub fn update_invite_status(
    store: &mut Store,
    invite_id: String,
    update_status: InviteStatus,
) -> (r: Result<Invite, AppError>)
    requires
        old(store)@.wf(),
    ensures
        final(store)@.wf(),
        ({
            let (s2, res) = spec_update_invite_status(old(store)@, invite_id@, update_status);
            final(store)@ == s2 && res_v(r) == res
        }),
{
    let i = match store.find_invite_by_id(&invite_id) {
        None => {
            return Err(AppError::NotFound);
        },
        Some(i) => i,
    };
    proof {
        let j = old(store)@.invite_idx_by_id(invite_id@);
        assert(0 <= j < old(store)@.invites.len() && old(store)@.invites[j].id == invite_id@);
        assert(j == i as int);
    }
    let row = Invite {
        id: store.invites[i].id.clone(),
        user_id: store.invites[i].user_id.clone(),
        email: store.invites[i].email.clone(),
        status: update_status,
        expires: store.invites[i].expires,
    };
    let out = row.clone();
    proof {
        lemma_wf_update_invite(old(store)@, i as int, row@);
    }
    store.invites.set(i, row);
    proof {
        let (s2, res) = spec_update_invite_status(old(store)@, invite_id@, update_status);
        assert(store@.invites =~= s2.invites);
        assert(store@ == s2);
    }
    Ok(out)
}

/// The first phase of confirmation: the invite must match id, user and email,
/// and must not be past its expiry; then it becomes `Accepted` and its id is
/// returned. On any mismatch nothing changes and the caller sees `NotFound` —
/// an expired invite is indistinguishable from an absent one.
pub open spec fn spec_confirm_invite(
    s: StoreV,
    invite_id: Seq<char>,
    user_id: Seq<char>,
    email: Seq<char>,
    now: int,
) -> (StoreV, Result<Seq<char>, AppErrorV>) {
    if !s.has_invite_id(invite_id) {
        (s, Err(AppErrorV::NotFound))
    } else {
        let i = s.invite_idx_by_id(invite_id);
        let inv = s.invites[i];
        if inv.user_id == user_id && inv.email == email && inv.expires > now {
            let v2 = InviteV { status: InviteStatus::Accepted, ..inv };
            (StoreV { invites: s.invites.update(i, v2), ..s }, Ok(invite_id))
        } else {
            (s, Err(AppErrorV::NotFound))
        }
    }
}

pub fn confirm_invite(
    store: &mut Store,
    invite_id: String,
    user_id: String,
    email: String,
    now: i64,
) -> (r: Result<String, AppError>)
    requires
        old(store)@.wf(),
    ensures
        final(store)@.wf(),
        ({
            let (s2, res) = spec_confirm_invite(old(store)@, invite_id@, user_id@, email@, now as int);
            final(store)@ == s2 && res_v(r) == res
        }),
{
    let i = match store.find_invite_by_id(&invite_id) {
        None => {
            return Err(AppError::NotFound);
        },
        Some(i) => i,
    };
    proof {
        let j = old(store)@.invite_idx_by_id(invite_id@);
        assert(0 <= j < old(store)@.invites.len() && old(store)@.invites[j].id == invite_id@);
        assert(j == i as int);
    }
    if !(store.invites[i].user_id == user_id && store.invites[i].email == email
        && store.invites[i].expires > now) {
        return Err(AppError::NotFound);
    }
    let row = Invite {
        id: store.invites[i].id.clone(),
        user_id: store.invites[i].user_id.clone(),
        email: store.invites[i].email.clone(),
        status: InviteStatus::Accepted,
        expires: store.invites[i].expires,
    };
    proof {
        lemma_wf_update_invite(old(store)@, i as int, row@);
    }
    store.invites.set(i, row);
    proof {
        let (s2, res) = spec_confirm_invite(old(store)@, invite_id@, user_id@, email@, now as int);
        assert(store@.invites =~= s2.invites);
        assert(store@ == s2);
    }
    Ok(invite_id)
}

/// Both phases of confirmation: accept the invite, then set the user's
/// confirmed flag. The store's integrity guarantees that when the invite
/// matches, the user row exists, so the second phase cannot fail: the two
/// phases act as one transaction and no half-confirmed state is reachable.
pub open spec fn spec_confirm_user(
    s: StoreV,
    invite_id: Seq<char>,
    user_id: Seq<char>,
    email: Seq<char>,
    now: int,
) -> (StoreV, Result<UserV, AppErrorV>) {
    let (s1, r1) = spec_confirm_invite(s, invite_id, user_id, email, now);
    match r1 {
        Err(e) => (s1, Err(e)),
        Ok(_) => {
            let i = s1.user_idx_by_id(user_id);
            let u2 = UserV { confirmed: true, ..s1.users[i] };
            (StoreV { users: s1.users.update(i, u2), ..s1 }, Ok(u2))
        },
    }
}

pub fn confirm_user(
    store: &mut Store,
    invite_id: String,
    user_id: String,
    email: String,
    now: i64,
) -> (r: Result<User, AppError>)
    requires
        old(store)@.wf(),
    ensures
        final(store)@.wf(),
        ({
            let (s2, res) = spec_confirm_user(old(store)@, invite_id@, user_id@, email@, now as int);
            final(store)@ == s2 && res_v(r) == res
        }),
{
    let inv_id = match confirm_invite(store, invite_id, user_id.clone(), email, now) {
        Err(e) => {
            return Err(e);
        },
        Ok(id) => id,
    };
    let ghost s1 = store@;
    let i = match store.find_user_by_id(&user_id) {
        None => {
            proof {
                let j = s1.invite_idx_by_id(inv_id@);
                assert(0 <= j < s1.invites.len() && s1.invites[j].id == inv_id@);
                assert(s1.has_user_id(s1.invites[j].user_id));
                assert(false);
            }
            return Err(AppError::NotFound);
        },
        Some(i) => i,
    };
    proof {
        let j = s1.user_idx_by_id(user_id@);
        assert(0 <= j < s1.users.len() && s1.users[j].id == user_id@);
        assert(j == i as int);
    }
    let row = User {
        id: store.users[i].id.clone(),
        email: store.users[i].email.clone(),
        password: store.users[i].password.clone(),
        confirmed: true,
    };
    let out = row.clone();
    proof {
        lemma_wf_update_user(s1, i as int, row@);
    }
    store.users.set(i, row);
    proof {
        let (s2, res) = spec_confirm_user(old(store)@, invite_id@, user_id@, email@, now as int);
        assert(store@.users =~= s2.users);
        assert(store@ == s2);
    }
    Ok(out)
}

/// Looks an invite up by id.
pub open spec fn spec_get_invite(s: StoreV, invite_id: Seq<char>) -> Result<InviteV, AppErrorV> {
    if s.has_invite_id(invite_id) {
        Ok(s.invites[s.invite_idx_by_id(invite_id)])
    } else {
        Err(AppErrorV::NotFound)
    }
}

pub fn get_invite(store: &Store, invite_id: String) -> (r: Result<Invite, AppError>)
    requires
        store@.wf(),
    ensures
        res_v(r) == spec_get_invite(store@, invite_id@),
{
    match store.find_invite_by_id(&invite_id) {
        None => Err(AppError::NotFound),
        Some(i) => {
            proof {
                let j = store@.invite_idx_by_id(invite_id@);
                assert(0 <= j < store@.invites.len() && store@.invites[j].id == invite_id@);
                assert(j == i as int);
            }
            Ok(store.invites[i].clone())
        },
    }
}

/// Clears the confirmed flag of a user that is currently confirmed; an absent
/// or already-unconfirmed user is `NotFound`.
pub open spec fn spec_deconfirm_user(s: StoreV, user_id: Seq<char>) -> (StoreV, Result<
    DeconfirmedUserV,
    AppErrorV,
>) {
    if !s.has_user_id(user_id) {
        (s, Err(AppErrorV::NotFound))
    } else {
        let i = s.user_idx_by_id(user_id);
        if !s.users[i].confirmed {
            (s, Err(AppErrorV::NotFound))
        } else {
            let u2 = UserV { confirmed: false, ..s.users[i] };
            (
                StoreV { users: s.users.update(i, u2), ..s },
                Ok(DeconfirmedUserV { id: u2.id, email: u2.email }),
            )
        }
    }
}

pub fn deconfirm_user(store: &mut Store, user_id: String) -> (r: Result<DeconfirmedUser, AppError>)
    requires
        old(store)@.wf(),
    ensures
        final(store)@.wf(),
        ({
            let (s2, res) = spec_deconfirm_user(old(store)@, user_id@);
            final(store)@ == s2 && res_v(r) == res
        }),
{
    let i = match store.find_user_by_id(&user_id) {
        None => {
            return Err(AppError::NotFound);
        },
        Some(i) => i,
    };
    proof {
        let j = old(store)@.user_idx_by_id(user_id@);
        assert(0 <= j < old(store)@.users.len() && old(store)@.users[j].id == user_id@);
        assert(j == i as int);
    }
    if !store.users[i].confirmed {
        return Err(AppError::NotFound);
    }
    let row = User {
        id: store.users[i].id.clone(),
        email: store.users[i].email.clone(),
        password: store.users[i].password.clone(),
        confirmed: false,
    };
    let out = DeconfirmedUser { id: row.id.clone(), email: row.email.clone() };
    proof {
        lemma_wf_update_user(old(store)@, i as int, row@);
    }
    store.users.set(i, row);
    proof {
        let (s2, res) = spec_deconfirm_user(old(store)@, user_id@);
        assert(store@.users =~= s2.users);
        assert(store@ == s2);
    }
    Ok(out)
}

/// Looks a user up by id.
pub open spec fn spec_get_user(s: StoreV, user_id: Seq<char>) -> Result<UserV, AppErrorV> {
    if s.has_user_id(user_id) {
        Ok(s.users[s.user_idx_by_id(user_id)])
    } else {
        Err(AppErrorV::NotFound)
    }
}

pub fn get_user(store: &Store, user_id: String) -> (r: Result<User, AppError>)
    requires
        store@.wf(),
    ensures
        res_v(r) == spec_get_user(store@, user_id@),
{
    match store.find_user_by_id(&user_id) {
        None => Err(AppError::NotFound),
        Some(i) => {
            proof {
                let j = store@.user_idx_by_id(user_id@);
                assert(0 <= j < store@.users.len() && store@.users[j].id == user_id@);
                assert(j == i as int);
            }
            Ok(store.users[i].clone())
        },
    }
}

/// Deletes an invite by id; an absent invite is no error and counts zero.
pub open spec fn spec_delete_invite(s: StoreV, invite_id: Seq<char>) -> (StoreV, int) {
    if s.has_invite_id(invite_id) {
        (StoreV { invites: s.invites.remove(s.invite_idx_by_id(invite_id)), ..s }, 1)
    } else {
        (s, 0)
    }
}

pub fn delete_invite(store: &mut Store, invite_id: String) -> (r: Result<usize, AppError>)
    requires
        old(store)@.wf(),
    ensures
        final(store)@.wf(),
        ({
            let (s2, n) = spec_delete_invite(old(store)@, invite_id@);
            final(store)@ == s2 && (r matches Ok(c) && c as int == n)
        }),
{
    let i = match store.find_invite_by_id(&invite_id) {
        None => {
            return Ok(0);
        },
        Some(i) => i,
    };
    proof {
        let j = old(store)@.invite_idx_by_id(invite_id@);
        assert(0 <= j < old(store)@.invites.len() && old(store)@.invites[j].id == invite_id@);
        assert(j == i as int);
        lemma_wf_remove_invite(old(store)@, i as int);
    }
    store.invites.remove(i);
    proof {
        let (s2, n) = spec_delete_invite(old(store)@, invite_id@);
        assert(store@.invites =~= s2.invites);
        assert(store@ == s2);
    }
    Ok(1)
}


/// An invite past its expiry confirms nothing: the whole confirmation fails
/// as not-found and the user's confirmed flag stands exactly as it was.
pub proof fn lemma_confirm_expired_invite_fails(
    s: StoreV,
    invite_id: Seq<char>,
    user_id: Seq<char>,
    email: Seq<char>,
    now: int,
)
    requires
        s.wf(),
        s.has_invite_id(invite_id),
        s.invites[s.invite_idx_by_id(invite_id)].expires <= now,
    ensures
        spec_confirm_user(s, invite_id, user_id, email, now) == (s, Err::<UserV, AppErrorV>(
            AppErrorV::NotFound,
        )),
{
}

} // verus!
