use crate::db::users::{
    confirm_user, new_invite, new_user, spec_confirm_user, spec_new_invite, spec_new_user,
    INVITE_TTL_SECONDS,
};
use crate::models::invite::{NewInvite, UserInviteResponse, UserInviteResponseV};
use crate::models::user::{NewUser, NewUserV, User, UserV};
use crate::store::{Store, StoreV};
use crate::types::{res_v, AppError, AppErrorV};
use vstd::prelude::*;

verus! {

/// Signing up: insert the unconfirmed account, then its invite, and answer
/// with the three ids the confirmation step will need. A taken email fails on
/// the first step and leaves the store unchanged; the invite insert cannot
/// fail, because the user it references was just created.
pub open spec fn spec_create_user(s: StoreV, payload: NewUserV, now: int) -> (StoreV, Result<
    UserInviteResponseV,
    AppErrorV,
>) {
    let (s1, r1) = spec_new_user(s, payload.email, payload.password);
    match r1 {
        Err(e) => (s1, Err(e)),
        Ok(created) => {
            let (s2, r2) = spec_new_invite(
                s1,
                crate::models::invite::NewInviteV { user_id: created.id, email: created.email },
                now,
            );
            match r2 {
                Err(e) => (s2, Err(e)),
                Ok(inv) => (
                    s2,
                    Ok(
                        UserInviteResponseV {
                            email: inv.email,
                            invite_id: inv.id,
                            user_id: inv.user_id,
                        },
                    ),
                ),
            }
        },
    }
}

pub fn create_user(store: &mut Store, payload: NewUser, now: i64) -> (r: Result<
    UserInviteResponse,
    AppError,
>)
    requires
        old(store)@.wf(),
        old(store)@.next_id + 2 <= u64::MAX,
        now <= i64::MAX - INVITE_TTL_SECONDS,
    ensures
        final(store)@.wf(),
        ({
            let (s2, res) = spec_create_user(old(store)@, payload@, now as int);
            final(store)@ == s2 && res_v(r) == res
        }),
{
    let created = match new_user(store, payload) {
        Err(e) => {
            return Err(e);
        },
        Ok(c) => c,
    };
    let inv_data = NewInvite { user_id: created.id, email: created.email };
    let inv = match new_invite(store, inv_data, now) {
        Err(e) => {
            return Err(e);
        },
        Ok(i) => i,
    };
    Ok(UserInviteResponse { email: inv.email, invite_id: inv.id, user_id: inv.user_id })
}

} // verus!
