use vstd::prelude::*;

verus! {

pub struct SessionV {
    pub id: Seq<char>,
    pub user_id: Seq<char>,
    pub expires: int,
}

/// A server-side login record. The token a client holds references it by id;
/// a request is authorized only while this row exists and `expires` (a unix
/// timestamp) lies in the future. At most one session exists per user.
#[derive(Debug)]
pub struct Session {
    pub id: String,
    pub user_id: String,
    pub expires: i64,
}

impl View for Session {
    type V = SessionV;

    open spec fn view(&self) -> SessionV {
        SessionV { id: self.id@, user_id: self.user_id@, expires: self.expires as int }
    }
}

impl DeepView for Session {
    type V = SessionV;

    open spec fn deep_view(&self) -> SessionV {
        self.view()
    }
}

impl Clone for Session {
    fn clone(&self) -> (r: Self)
        ensures
            r@ == self@,
    {
        Session { id: self.id.clone(), user_id: self.user_id.clone(), expires: self.expires }
    }
}

pub struct NewSessionV {
    pub user_id: Seq<char>,
}

#[derive(Debug)]
pub struct NewSession {
    pub user_id: String,
}

impl View for NewSession {
    type V = NewSessionV;

    open spec fn view(&self) -> NewSessionV {
        NewSessionV { user_id: self.user_id@ }
    }
}

#[derive(Debug)]
pub struct RenewSessionRequest {
    pub token: String,
}

impl View for RenewSessionRequest {
    type V = Seq<char>;

    open spec fn view(&self) -> Seq<char> {
        self.token@
    }
}

} // verus!
