use vstd::prelude::*;

verus! {

/// The lifecycle of an invite. `Created` and `Sent` may still be accepted;
/// `Accepted` is terminal. Expiry is enforced by comparing `expires` against
/// the clock, never by an automatic switch to `Expired`.
#[derive(Debug, Clone, Copy, PartialEq, Eq, Structural)]
pub enum InviteStatus {
    Created,
    Sent,
    Accepted,
    Expired,
}

pub struct InviteV {
    pub id: Seq<char>,
    pub user_id: Seq<char>,
    pub email: Seq<char>,
    pub status: InviteStatus,
    pub expires: int,
}

/// A time-boxed permission to confirm a newly created account.
#[derive(Debug)]
pub struct Invite {
    pub id: String,
    pub user_id: String,
    pub email: String,
    pub status: InviteStatus,
    pub expires: i64,
}

impl View for Invite {
    type V = InviteV;

    open spec fn view(&self) -> InviteV {
        InviteV {
            id: self.id@,
            user_id: self.user_id@,
            email: self.email@,
            status: self.status,
            expires: self.expires as int,
        }
    }
}

impl DeepView for Invite {
    type V = InviteV;

    open spec fn deep_view(&self) -> InviteV {
        self.view()
    }
}

impl Clone for Invite {
    fn clone(&self) -> (r: Self)
        ensures
            r@ == self@,
    {
        Invite {
            id: self.id.clone(),
            user_id: self.user_id.clone(),
            email: self.email.clone(),
            status: self.status,
            expires: self.expires,
        }
    }
}

pub struct NewInviteV {
    pub user_id: Seq<char>,
    pub email: Seq<char>,
}

#[derive(Debug)]
pub struct NewInvite {
    pub user_id: String,
    pub email: String,
}

impl View for NewInvite {
    type V = NewInviteV;

    open spec fn view(&self) -> NewInviteV {
        NewInviteV { user_id: self.user_id@, email: self.email@ }
    }
}

pub struct CreatedInviteV {
    pub id: Seq<char>,
    pub user_id: Seq<char>,
    pub email: Seq<char>,
}

#[derive(Debug)]
pub struct CreatedInvite {
    pub id: String,
    pub user_id: String,
    pub email: String,
}

impl View for CreatedInvite {
    type V = CreatedInviteV;

    open spec fn view(&self) -> CreatedInviteV {
        CreatedInviteV { id: self.id@, user_id: self.user_id@, email: self.email@ }
    }
}

impl DeepView for CreatedInvite {
    type V = CreatedInviteV;

    open spec fn deep_view(&self) -> CreatedInviteV {
        self.view()
    }
}

pub struct InviteUpdateV {
    pub id: Seq<char>,
    pub status: InviteStatus,
}

#[derive(Debug)]
pub struct InviteUpdate {
    pub id: String,
    pub status: InviteStatus,
}

impl View for InviteUpdate {
    type V = InviteUpdateV;

    open spec fn view(&self) -> InviteUpdateV {
        InviteUpdateV { id: self.id@, status: self.status }
    }
}

pub struct UserInviteResponseV {
    pub email: Seq<char>,
    pub invite_id: Seq<char>,
    pub user_id: Seq<char>,
}

#[derive(Debug)]
pub struct UserInviteResponse {
    pub email: String,
    pub invite_id: String,
    pub user_id: String,
}

impl View for UserInviteResponse {
    type V = UserInviteResponseV;

    open spec fn view(&self) -> UserInviteResponseV {
        UserInviteResponseV { email: self.email@, invite_id: self.invite_id@, user_id: self.user_id@ }
    }
}

impl DeepView for UserInviteResponse {
    type V = UserInviteResponseV;

    open spec fn deep_view(&self) -> UserInviteResponseV {
        self.view()
    }
}

pub struct UserConfirmationPayloadV {
    pub email: Seq<char>,
    pub invite_id: Seq<char>,
}

#[derive(Debug)]
pub struct UserConfirmationPayload {
    pub email: String,
    pub invite_id: String,
}

impl View for UserConfirmationPayload {
    type V = UserConfirmationPayloadV;

    open spec fn view(&self) -> UserConfirmationPayloadV {
        UserConfirmationPayloadV { email: self.email@, invite_id: self.invite_id@ }
    }
}

} // verus!
