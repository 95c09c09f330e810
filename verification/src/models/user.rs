use vstd::prelude::*;

verus! {

pub struct UserV {
    pub id: Seq<char>,
    pub email: Seq<char>,
    pub password: Seq<char>,
    pub confirmed: bool,
}

/// An account row. `password` holds the stored credential as the credential
/// store keeps it; it is compared, never rendered. An account starts
/// unconfirmed and becomes confirmed only through a valid invite.
#[derive(Debug)]
pub struct User {
    pub id: String,
    pub email: String,
    pub password: String,
    pub confirmed: bool,
}

impl View for User {
    type V = UserV;

    open spec fn view(&self) -> UserV {
        UserV {
            id: self.id@,
            email: self.email@,
            password: self.password@,
            confirmed: self.confirmed,
        }
    }
}

impl DeepView for User {
    type V = UserV;

    open spec fn deep_view(&self) -> UserV {
        self.view()
    }
}

impl Clone for User {
    fn clone(&self) -> (r: Self)
        ensures
            r@ == self@,
    {
        User {
            id: self.id.clone(),
            email: self.email.clone(),
            password: self.password.clone(),
            confirmed: self.confirmed,
        }
    }
}

pub struct NewUserV {
    pub email: Seq<char>,
    pub password: Seq<char>,
}

#[derive(Debug)]
pub struct NewUser {
    pub email: String,
    pub password: String,
}

impl View for NewUser {
    type V = NewUserV;

    open spec fn view(&self) -> NewUserV {
        NewUserV { email: self.email@, password: self.password@ }
    }
}

pub struct NewConfirmedUserV {
    pub email: Seq<char>,
    pub password: Seq<char>,
    pub confirmed: bool,
}

#[derive(Debug)]
pub struct NewConfirmedUser {
    pub email: String,
    pub password: String,
    pub confirmed: bool,
}

impl View for NewConfirmedUser {
    type V = NewConfirmedUserV;

    open spec fn view(&self) -> NewConfirmedUserV {
        NewConfirmedUserV {
            email: self.email@,
            password: self.password@,
            confirmed: self.confirmed,
        }
    }
}

pub struct CreatedUserV {
    pub id: Seq<char>,
    pub email: Seq<char>,
}

#[derive(Debug)]
pub struct CreatedUser {
    pub id: String,
    pub email: String,
}

impl View for CreatedUser {
    type V = CreatedUserV;

    open spec fn view(&self) -> CreatedUserV {
        CreatedUserV { id: self.id@, email: self.email@ }
    }
}

impl DeepView for CreatedUser {
    type V = CreatedUserV;

    open spec fn deep_view(&self) -> CreatedUserV {
        self.view()
    }
}

pub struct DeconfirmedUserV {
    pub id: Seq<char>,
    pub email: Seq<char>,
}

#[derive(Debug)]
pub struct DeconfirmedUser {
    pub id: String,
    pub email: String,
}

impl View for DeconfirmedUser {
    type V = DeconfirmedUserV;

    open spec fn view(&self) -> DeconfirmedUserV {
        DeconfirmedUserV { id: self.id@, email: self.email@ }
    }
}

impl DeepView for DeconfirmedUser {
    type V = DeconfirmedUserV;

    open spec fn deep_view(&self) -> DeconfirmedUserV {
        self.view()
    }
}

} // verus!
