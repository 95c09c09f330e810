pub mod sessions;
pub mod tabs;
pub mod tags;
pub mod users;

use crate::store::{Store, StoreV};
use crate::types::{res_v, AppError, AppErrorV};
use vstd::prelude::*;

verus! {

/// What the credential check reports: a user with this email exists, is
/// confirmed, and the submitted secret equals the stored credential. Absence
/// and a wrong password are indistinguishable in the result, on purpose.
pub open spec fn spec_validate_password(
    s: StoreV,
    email: Seq<char>,
    password: Seq<char>,
) -> Result<bool, AppErrorV> {
    if !s.has_user_email(email) {
        Ok(false)
    } else {
        let u = s.users[s.user_idx_by_email(email)];
        Ok(u.confirmed && u.password == password)
    }
}

/// Verifies a submitted password against the stored credential of the account
/// with this email. The stored value is compared as an opaque credential
/// string; whatever hashing there is happens before the value enters the
/// store. Only a confirmed account can validate.
pub fn validate_password(store: &Store, email: String, password: String) -> (r: Result<
    bool,
    AppError,
>)
    requires
        store@.wf(),
    ensures
        res_v(r) == spec_validate_password(store@, email@, password@),
{
    match store.find_user_by_email(&email) {
        None => Ok(false),
        Some(i) => {
            proof {
                let j = store@.user_idx_by_email(email@);
                assert(0 <= j < store@.users.len() && store@.users[j].email == email@);
                assert(j == i as int);
            }
            Ok(store.users[i].confirmed && store.users[i].password == password)
        },
    }
}

} // verus!
