use crate::ids::{dec_digits, lemma_dec_digits_injective};
use crate::models::invite::{Invite, InviteV};
use crate::models::session::{Session, SessionV};
use crate::models::tab::{Tab, TabTag, TabTagV, TabV};
use crate::models::tag::{Tag, TagV};
use crate::models::user::{User, UserV};
use vstd::prelude::*;

verus! {

/// The mathematical model of the store: one sequence per table, in insertion
/// order, plus the id counter.
pub struct StoreV {
    pub users: Seq<UserV>,
    pub invites: Seq<InviteV>,
    pub sessions: Seq<SessionV>,
    pub tabs: Seq<TabV>,
    pub tags: Seq<TagV>,
    pub tab_tags: Seq<TabTagV>,
    pub next_id: nat,
}

/// The relational state behind every service operation: users, invites,
/// sessions, tabs, tags and the tab-tag association, with a counter from
/// which fresh record ids are minted. Every operation requires and preserves
/// `wf` on the view.
#[derive(Debug)]
pub struct Store {
    pub users: Vec<User>,
    pub invites: Vec<Invite>,
    pub sessions: Vec<Session>,
    pub tabs: Vec<Tab>,
    pub tags: Vec<Tag>,
    pub tab_tags: Vec<TabTag>,
    pub next_id: u64,
}

impl View for Store {
    type V = StoreV;

    open spec fn view(&self) -> StoreV {
        StoreV {
            users: self.users.deep_view(),
            invites: self.invites.deep_view(),
            sessions: self.sessions.deep_view(),
            tabs: self.tabs.deep_view(),
            tags: self.tags.deep_view(),
            tab_tags: self.tab_tags.deep_view(),
            next_id: self.next_id as nat,
        }
    }
}

impl StoreV {
    /// An id that some earlier value of the counter produced.
    pub open spec fn id_minted(self, id: Seq<char>) -> bool {
        exists|k: nat| k < self.next_id && id == #[trigger] dec_digits(k)
    }

    // ---- lookups ----

    pub open spec fn has_user_id(self, id: Seq<char>) -> bool {
        exists|i: int| #![trigger self.users[i]] 0 <= i < self.users.len() && self.users[i].id == id
    }

    pub open spec fn user_idx_by_id(self, id: Seq<char>) -> int {
        choose|i: int| 0 <= i < self.users.len() && self.users[i].id == id
    }

    pub open spec fn has_user_email(self, email: Seq<char>) -> bool {
        exists|i: int|
            #![trigger self.users[i]]
            0 <= i < self.users.len() && self.users[i].email == email
    }

    pub open spec fn user_idx_by_email(self, email: Seq<char>) -> int {
        choose|i: int| 0 <= i < self.users.len() && self.users[i].email == email
    }

    pub open spec fn has_session_id(self, id: Seq<char>) -> bool {
        exists|i: int|
            #![trigger self.sessions[i]]
            0 <= i < self.sessions.len() && self.sessions[i].id == id
    }

    pub open spec fn session_idx_by_id(self, id: Seq<char>) -> int {
        choose|i: int| 0 <= i < self.sessions.len() && self.sessions[i].id == id
    }

    pub open spec fn has_session_for_user(self, user_id: Seq<char>) -> bool {
        exists|i: int|
            #![trigger self.sessions[i]]
            0 <= i < self.sessions.len() && self.sessions[i].user_id == user_id
    }

    pub open spec fn session_idx_by_user(self, user_id: Seq<char>) -> int {
        choose|i: int| 0 <= i < self.sessions.len() && self.sessions[i].user_id == user_id
    }

    /// The lookup the token check makes: the session must carry both the
    /// session id (`jti`) and the user id (`sub`) of the claims.
    pub open spec fn has_session_claim(self, jti: Seq<char>, sub: Seq<char>) -> bool {
        exists|i: int|
            #![trigger self.sessions[i]]
            0 <= i < self.sessions.len() && self.sessions[i].id == jti && self.sessions[i].user_id
                == sub
    }

    pub open spec fn session_idx_by_claim(self, jti: Seq<char>, sub: Seq<char>) -> int {
        choose|i: int|
            0 <= i < self.sessions.len() && self.sessions[i].id == jti && self.sessions[i].user_id
                == sub
    }

    pub open spec fn has_invite_id(self, id: Seq<char>) -> bool {
        exists|i: int|
            #![trigger self.invites[i]]
            0 <= i < self.invites.len() && self.invites[i].id == id
    }

    pub open spec fn invite_idx_by_id(self, id: Seq<char>) -> int {
        choose|i: int| 0 <= i < self.invites.len() && self.invites[i].id == id
    }

    pub open spec fn has_tab_id(self, id: Seq<char>) -> bool {
        exists|i: int| #![trigger self.tabs[i]] 0 <= i < self.tabs.len() && self.tabs[i].id == id
    }

    pub open spec fn tab_idx_by_id(self, id: Seq<char>) -> int {
        choose|i: int| 0 <= i < self.tabs.len() && self.tabs[i].id == id
    }

    /// Ownership-scoped tab lookup: id and owner must both match.
    pub open spec fn has_tab_for(self, id: Seq<char>, user_id: Seq<char>) -> bool {
        exists|i: int|
            #![trigger self.tabs[i]]
            0 <= i < self.tabs.len() && self.tabs[i].id == id && self.tabs[i].user_id == user_id
    }

    pub open spec fn tab_idx_for(self, id: Seq<char>, user_id: Seq<char>) -> int {
        choose|i: int|
            0 <= i < self.tabs.len() && self.tabs[i].id == id && self.tabs[i].user_id == user_id
    }

    pub open spec fn has_tag_id(self, id: Seq<char>) -> bool {
        exists|i: int| #![trigger self.tags[i]] 0 <= i < self.tags.len() && self.tags[i].id == id
    }

    pub open spec fn tag_idx_by_id(self, id: Seq<char>) -> int {
        choose|i: int| 0 <= i < self.tags.len() && self.tags[i].id == id
    }

    /// Ownership-scoped tag lookup: id and owner must both match.
    pub open spec fn has_tag_for(self, id: Seq<char>, user_id: Seq<char>) -> bool {
        exists|i: int|
            #![trigger self.tags[i]]
            0 <= i < self.tags.len() && self.tags[i].id == id && self.tags[i].user_id == user_id
    }

    pub open spec fn tag_idx_for(self, id: Seq<char>, user_id: Seq<char>) -> int {
        choose|i: int|
            0 <= i < self.tags.len() && self.tags[i].id == id && self.tags[i].user_id == user_id
    }

    pub open spec fn has_tab_tag(self, tab_id: Seq<char>, tag_id: Seq<char>) -> bool {
        exists|i: int|
            #![trigger self.tab_tags[i]]
            0 <= i < self.tab_tags.len() && self.tab_tags[i].tab_id == tab_id
                && self.tab_tags[i].tag_id == tag_id
    }

    pub open spec fn tab_tag_idx(self, tab_id: Seq<char>, tag_id: Seq<char>) -> int {
        choose|i: int|
            0 <= i < self.tab_tags.len() && self.tab_tags[i].tab_id == tab_id
                && self.tab_tags[i].tag_id == tag_id
    }

    /// The set of tag ids attached to a tab.
    pub open spec fn attached_tag_ids(self, tab_id: Seq<char>) -> Set<Seq<char>> {
        Set::new(|tag_id: Seq<char>| self.has_tab_tag(tab_id, tag_id))
    }

    // ---- well-formedness ----

    pub open spec fn users_wf(self) -> bool {
        forall|i: int, j: int|
            #![trigger self.users[i], self.users[j]]
            0 <= i < j < self.users.len() ==> self.users[i].id != self.users[j].id
                && self.users[i].email != self.users[j].email
    }

    pub open spec fn sessions_wf(self) -> bool {
        &&& forall|i: int, j: int|
            #![trigger self.sessions[i], self.sessions[j]]
            0 <= i < j < self.sessions.len() ==> self.sessions[i].id != self.sessions[j].id
                && self.sessions[i].user_id != self.sessions[j].user_id
        &&& forall|i: int|
            #![trigger self.sessions[i]]
            0 <= i < self.sessions.len() ==> self.has_user_id(self.sessions[i].user_id)
    }

    pub open spec fn invites_wf(self) -> bool {
        &&& forall|i: int, j: int|
            #![trigger self.invites[i], self.invites[j]]
            0 <= i < j < self.invites.len() ==> self.invites[i].id != self.invites[j].id
        &&& forall|i: int|
            #![trigger self.invites[i]]
            0 <= i < self.invites.len() ==> self.has_user_id(self.invites[i].user_id)
    }

    pub open spec fn tabs_wf(self) -> bool {
        &&& forall|i: int, j: int|
            #![trigger self.tabs[i], self.tabs[j]]
            0 <= i < j < self.tabs.len() ==> self.tabs[i].id != self.tabs[j].id
        &&& forall|i: int|
            #![trigger self.tabs[i]]
            0 <= i < self.tabs.len() ==> self.has_user_id(self.tabs[i].user_id)
    }

    pub open spec fn tags_wf(self) -> bool {
        &&& forall|i: int, j: int|
            #![trigger self.tags[i], self.tags[j]]
            0 <= i < j < self.tags.len() ==> self.tags[i].id != self.tags[j].id
        &&& forall|i: int|
            #![trigger self.tags[i]]
            0 <= i < self.tags.len() ==> self.has_user_id(self.tags[i].user_id)
    }

    pub open spec fn tab_tags_wf(self) -> bool {
        &&& forall|i: int, j: int|
            #![trigger self.tab_tags[i], self.tab_tags[j]]
            0 <= i < j < self.tab_tags.len() ==> !(self.tab_tags[i].tab_id == self.tab_tags[j].tab_id
                && self.tab_tags[i].tag_id == self.tab_tags[j].tag_id)
        &&& forall|i: int|
            #![trigger self.tab_tags[i]]
            0 <= i < self.tab_tags.len() ==> self.has_tab_id(self.tab_tags[i].tab_id)
                && self.has_tag_id(self.tab_tags[i].tag_id)
    }

    pub open spec fn ids_minted(self) -> bool {
        &&& forall|i: int|
            #![trigger self.users[i]]
            0 <= i < self.users.len() ==> self.id_minted(self.users[i].id)
        &&& forall|i: int|
            #![trigger self.invites[i]]
            0 <= i < self.invites.len() ==> self.id_minted(self.invites[i].id)
        &&& forall|i: int|
            #![trigger self.sessions[i]]
            0 <= i < self.sessions.len() ==> self.id_minted(self.sessions[i].id)
        &&& forall|i: int|
            #![trigger self.tabs[i]]
            0 <= i < self.tabs.len() ==> self.id_minted(self.tabs[i].id)
        &&& forall|i: int|
            #![trigger self.tags[i]]
            0 <= i < self.tags.len() ==> self.id_minted(self.tags[i].id)
    }

    /// Well-formedness: unique keys (user emails too, and at most one session
    /// per user), referential integrity of every foreign key, and every id
    /// minted from an earlier value of the counter.
    pub open spec fn wf(self) -> bool {
        &&& self.users_wf()
        &&& self.sessions_wf()
        &&& self.invites_wf()
        &&& self.tabs_wf()
        &&& self.tags_wf()
        &&& self.tab_tags_wf()
        &&& self.ids_minted()
    }
}

/// A minted id never collides with the rendering of the current counter.
pub proof fn lemma_minted_ne_next(s: StoreV)
    ensures
        forall|id: Seq<char>| #[trigger] s.id_minted(id) ==> id != dec_digits(s.next_id),
{
    assert forall|id: Seq<char>| #[trigger] s.id_minted(id) implies id != dec_digits(
        s.next_id,
    ) by {
        let k = choose|k: nat| k < s.next_id && id == #[trigger] dec_digits(k);
        if id == dec_digits(s.next_id) {
            lemma_dec_digits_injective(k, s.next_id);
        }
    }
}

// ---- frame lemmas: a lookup survives when its table keeps its rows ----

/// `has_user_id` carries over to a store whose user table extends the old one.
pub proof fn lemma_has_user_id_frame(s0: StoreV, s2: StoreV, id: Seq<char>)
    requires
        s0.has_user_id(id),
        s0.users.len() <= s2.users.len(),
        forall|i: int| 0 <= i < s0.users.len() ==> s2.users[i] == #[trigger] s0.users[i],
    ensures
        s2.has_user_id(id),
{
    let w = choose|w: int| 0 <= w < s0.users.len() && s0.users[w].id == id;
    assert(s2.users[w].id == id);
}

pub proof fn lemma_has_tab_id_frame(s0: StoreV, s2: StoreV, id: Seq<char>)
    requires
        s0.has_tab_id(id),
        s0.tabs.len() <= s2.tabs.len(),
        forall|i: int| 0 <= i < s0.tabs.len() ==> s2.tabs[i] == #[trigger] s0.tabs[i],
    ensures
        s2.has_tab_id(id),
{
    let w = choose|w: int| 0 <= w < s0.tabs.len() && s0.tabs[w].id == id;
    assert(s2.tabs[w].id == id);
}

pub proof fn lemma_has_tag_id_frame(s0: StoreV, s2: StoreV, id: Seq<char>)
    requires
        s0.has_tag_id(id),
        s0.tags.len() <= s2.tags.len(),
        forall|i: int| 0 <= i < s0.tags.len() ==> s2.tags[i] == #[trigger] s0.tags[i],
    ensures
        s2.has_tag_id(id),
{
    let w = choose|w: int| 0 <= w < s0.tags.len() && s0.tags[w].id == id;
    assert(s2.tags[w].id == id);
}

/// A minted id stays minted when the counter does not go backwards.
pub proof fn lemma_id_minted_frame(s0: StoreV, s2: StoreV, id: Seq<char>)
    requires
        s0.id_minted(id),
        s0.next_id <= s2.next_id,
    ensures
        s2.id_minted(id),
{
    let k = choose|k: nat| k < s0.next_id && id == #[trigger] dec_digits(k);
    assert(k < s2.next_id && id == dec_digits(k));
}

// ---- well-formedness preservation, one lemma per table operation ----

/// The users table: every lookup, foreign key and minted id of `s0` holds
/// again in `s2` when the listed tables agree.
proof fn lemma_wf_frame(s0: StoreV, s2: StoreV)
    requires
        s0.wf(),
        s0.next_id <= s2.next_id,
        s0.users.len() <= s2.users.len(),
        forall|i: int| 0 <= i < s0.users.len() ==> s2.users[i] == #[trigger] s0.users[i],
        s0.tabs.len() <= s2.tabs.len(),
        forall|i: int| 0 <= i < s0.tabs.len() ==> s2.tabs[i] == #[trigger] s0.tabs[i],
        s0.tags.len() <= s2.tags.len(),
        forall|i: int| 0 <= i < s0.tags.len() ==> s2.tags[i] == #[trigger] s0.tags[i],
        s2.invites == s0.invites,
        s2.sessions == s0.sessions,
        s2.tab_tags == s0.tab_tags,
    ensures
        s2.sessions_wf(),
        s2.invites_wf(),
        s2.tab_tags_wf(),
        forall|i: int|
            #![trigger s2.invites[i]]
            0 <= i < s2.invites.len() ==> s2.id_minted(s2.invites[i].id),
        forall|i: int|
            #![trigger s2.sessions[i]]
            0 <= i < s2.sessions.len() ==> s2.id_minted(s2.sessions[i].id),
{
    assert forall|i: int|
        #![trigger s2.sessions[i]]
        0 <= i < s2.sessions.len() implies s2.has_user_id(s2.sessions[i].user_id) && s2.id_minted(
        s2.sessions[i].id,
    ) by {
        assert(s2.sessions[i] == s0.sessions[i]);
        lemma_has_user_id_frame(s0, s2, s0.sessions[i].user_id);
        lemma_id_minted_frame(s0, s2, s0.sessions[i].id);
    }
    assert forall|i: int|
        #![trigger s2.invites[i]]
        0 <= i < s2.invites.len() implies s2.has_user_id(s2.invites[i].user_id) && s2.id_minted(
        s2.invites[i].id,
    ) by {
        assert(s2.invites[i] == s0.invites[i]);
        lemma_has_user_id_frame(s0, s2, s0.invites[i].user_id);
        lemma_id_minted_frame(s0, s2, s0.invites[i].id);
    }
    assert forall|i: int|
        #![trigger s2.tab_tags[i]]
        0 <= i < s2.tab_tags.len() implies s2.has_tab_id(s2.tab_tags[i].tab_id) && s2.has_tag_id(
        s2.tab_tags[i].tag_id,
    ) by {
        assert(s2.tab_tags[i] == s0.tab_tags[i]);
        lemma_has_tab_id_frame(s0, s2, s0.tab_tags[i].tab_id);
        lemma_has_tag_id_frame(s0, s2, s0.tab_tags[i].tag_id);
    }
}

/// Inserting a user whose id comes from the counter and whose email is new
/// keeps the store well-formed.
pub proof fn lemma_wf_insert_user(s: StoreV, u: UserV)
    requires
        s.wf(),
        u.id == dec_digits(s.next_id),
        !s.has_user_email(u.email),
    ensures
        (StoreV { users: s.users.push(u), next_id: s.next_id + 1, ..s }).wf(),
{
    let s2 = StoreV { users: s.users.push(u), next_id: s.next_id + 1, ..s };
    lemma_minted_ne_next(s);
    lemma_wf_frame(s, s2);
    assert forall|i: int, j: int|
        #![trigger s2.users[i], s2.users[j]]
        0 <= i < j < s2.users.len() implies s2.users[i].id != s2.users[j].id && s2.users[i].email
        != s2.users[j].email by {
        if j == s2.users.len() - 1 {
            assert(s.id_minted(s.users[i].id));
        }
    }
    assert forall|i: int|
        #![trigger s2.users[i]]
        0 <= i < s2.users.len() implies s2.id_minted(s2.users[i].id) by {
        if i < s2.users.len() - 1 {
            lemma_id_minted_frame(s, s2, s.users[i].id);
        } else {
            assert(s2.users[i].id == dec_digits(s.next_id) && s.next_id < s2.next_id);
        }
    }
    assert forall|i: int|
        #![trigger s2.tabs[i]]
        0 <= i < s2.tabs.len() implies s2.has_user_id(s2.tabs[i].user_id) && s2.id_minted(
        s2.tabs[i].id,
    ) by {
        lemma_has_user_id_frame(s, s2, s.tabs[i].user_id);
        lemma_id_minted_frame(s, s2, s.tabs[i].id);
    }
    assert forall|i: int|
        #![trigger s2.tags[i]]
        0 <= i < s2.tags.len() implies s2.has_user_id(s2.tags[i].user_id) && s2.id_minted(
        s2.tags[i].id,
    ) by {
        lemma_has_user_id_frame(s, s2, s.tags[i].user_id);
        lemma_id_minted_frame(s, s2, s.tags[i].id);
    }
}

/// Inserting a session with a counter-minted id for an existing user who has
/// no session yet keeps the store well-formed.
pub proof fn lemma_wf_insert_session(s: StoreV, v: SessionV)
    requires
        s.wf(),
        v.id == dec_digits(s.next_id),
        s.has_user_id(v.user_id),
        !s.has_session_for_user(v.user_id),
    ensures
        (StoreV { sessions: s.sessions.push(v), next_id: s.next_id + 1, ..s }).wf(),
{
    let s2 = StoreV { sessions: s.sessions.push(v), next_id: s.next_id + 1, ..s };
    lemma_minted_ne_next(s);
    assert forall|i: int, j: int|
        #![trigger s2.sessions[i], s2.sessions[j]]
        0 <= i < j < s2.sessions.len() implies s2.sessions[i].id != s2.sessions[j].id
        && s2.sessions[i].user_id != s2.sessions[j].user_id by {
        if j == s2.sessions.len() - 1 {
            assert(s.id_minted(s.sessions[i].id));
        }
    }
    assert forall|i: int|
        #![trigger s2.sessions[i]]
        0 <= i < s2.sessions.len() implies s2.has_user_id(s2.sessions[i].user_id) && s2.id_minted(
        s2.sessions[i].id,
    ) by {
        if i < s2.sessions.len() - 1 {
            lemma_has_user_id_frame(s, s2, s.sessions[i].user_id);
            lemma_id_minted_frame(s, s2, s.sessions[i].id);
        } else {
            lemma_has_user_id_frame(s, s2, v.user_id);
            assert(s2.sessions[i].id == dec_digits(s.next_id) && s.next_id < s2.next_id);
        }
    }
    assert forall|i: int|
        #![trigger s2.users[i]]
        0 <= i < s2.users.len() implies s2.id_minted(s2.users[i].id) by {
        lemma_id_minted_frame(s, s2, s.users[i].id);
    }
    assert forall|i: int|
        #![trigger s2.invites[i]]
        0 <= i < s2.invites.len() implies s2.has_user_id(s2.invites[i].user_id) && s2.id_minted(
        s2.invites[i].id,
    ) by {
        lemma_has_user_id_frame(s, s2, s.invites[i].user_id);
        lemma_id_minted_frame(s, s2, s.invites[i].id);
    }
    assert forall|i: int|
        #![trigger s2.tabs[i]]
        0 <= i < s2.tabs.len() implies s2.has_user_id(s2.tabs[i].user_id) && s2.id_minted(
        s2.tabs[i].id,
    ) by {
        lemma_has_user_id_frame(s, s2, s.tabs[i].user_id);
        lemma_id_minted_frame(s, s2, s.tabs[i].id);
    }
    assert forall|i: int|
        #![trigger s2.tags[i]]
        0 <= i < s2.tags.len() implies s2.has_user_id(s2.tags[i].user_id) && s2.id_minted(
        s2.tags[i].id,
    ) by {
        lemma_has_user_id_frame(s, s2, s.tags[i].user_id);
        lemma_id_minted_frame(s, s2, s.tags[i].id);
    }
    assert forall|i: int|
        #![trigger s2.tab_tags[i]]
        0 <= i < s2.tab_tags.len() implies s2.has_tab_id(s2.tab_tags[i].tab_id) && s2.has_tag_id(
        s2.tab_tags[i].tag_id,
    ) by {
        lemma_has_tab_id_frame(s, s2, s.tab_tags[i].tab_id);
        lemma_has_tag_id_frame(s, s2, s.tab_tags[i].tag_id);
    }
}

/// Inserting an invite with a counter-minted id for an existing user keeps
/// the store well-formed.
pub proof fn lemma_wf_insert_invite(s: StoreV, v: InviteV)
    requires
        s.wf(),
        v.id == dec_digits(s.next_id),
        s.has_user_id(v.user_id),
    ensures
        (StoreV { invites: s.invites.push(v), next_id: s.next_id + 1, ..s }).wf(),
{
    let s2 = StoreV { invites: s.invites.push(v), next_id: s.next_id + 1, ..s };
    lemma_minted_ne_next(s);
    assert forall|i: int, j: int|
        #![trigger s2.invites[i], s2.invites[j]]
        0 <= i < j < s2.invites.len() implies s2.invites[i].id != s2.invites[j].id by {
        if j == s2.invites.len() - 1 {
            assert(s.id_minted(s.invites[i].id));
        }
    }
    assert forall|i: int|
        #![trigger s2.invites[i]]
        0 <= i < s2.invites.len() implies s2.has_user_id(s2.invites[i].user_id) && s2.id_minted(
        s2.invites[i].id,
    ) by {
        if i < s2.invites.len() - 1 {
            lemma_has_user_id_frame(s, s2, s.invites[i].user_id);
            lemma_id_minted_frame(s, s2, s.invites[i].id);
        } else {
            lemma_has_user_id_frame(s, s2, v.user_id);
            assert(s2.invites[i].id == dec_digits(s.next_id) && s.next_id < s2.next_id);
        }
    }
    assert forall|i: int|
        #![trigger s2.users[i]]
        0 <= i < s2.users.len() implies s2.id_minted(s2.users[i].id) by {
        lemma_id_minted_frame(s, s2, s.users[i].id);
    }
    assert forall|i: int|
        #![trigger s2.sessions[i]]
        0 <= i < s2.sessions.len() implies s2.has_user_id(s2.sessions[i].user_id) && s2.id_minted(
        s2.sessions[i].id,
    ) by {
        lemma_has_user_id_frame(s, s2, s.sessions[i].user_id);
        lemma_id_minted_frame(s, s2, s.sessions[i].id);
    }
    assert forall|i: int|
        #![trigger s2.tabs[i]]
        0 <= i < s2.tabs.len() implies s2.has_user_id(s2.tabs[i].user_id) && s2.id_minted(
        s2.tabs[i].id,
    ) by {
        lemma_has_user_id_frame(s, s2, s.tabs[i].user_id);
        lemma_id_minted_frame(s, s2, s.tabs[i].id);
    }
    assert forall|i: int|
        #![trigger s2.tags[i]]
        0 <= i < s2.tags.len() implies s2.has_user_id(s2.tags[i].user_id) && s2.id_minted(
        s2.tags[i].id,
    ) by {
        lemma_has_user_id_frame(s, s2, s.tags[i].user_id);
        lemma_id_minted_frame(s, s2, s.tags[i].id);
    }
    assert forall|i: int|
        #![trigger s2.tab_tags[i]]
        0 <= i < s2.tab_tags.len() implies s2.has_tab_id(s2.tab_tags[i].tab_id) && s2.has_tag_id(
        s2.tab_tags[i].tag_id,
    ) by {
        lemma_has_tab_id_frame(s, s2, s.tab_tags[i].tab_id);
        lemma_has_tag_id_frame(s, s2, s.tab_tags[i].tag_id);
    }
}

/// Inserting a tab with a counter-minted id for an existing user keeps the
/// store well-formed.
pub proof fn lemma_wf_insert_tab(s: StoreV, v: TabV)
    requires
        s.wf(),
        v.id == dec_digits(s.next_id),
        s.has_user_id(v.user_id),
    ensures
        (StoreV { tabs: s.tabs.push(v), next_id: s.next_id + 1, ..s }).wf(),
{
    let s2 = StoreV { tabs: s.tabs.push(v), next_id: s.next_id + 1, ..s };
    lemma_minted_ne_next(s);
    assert forall|i: int, j: int|
        #![trigger s2.tabs[i], s2.tabs[j]]
        0 <= i < j < s2.tabs.len() implies s2.tabs[i].id != s2.tabs[j].id by {
        if j == s2.tabs.len() - 1 {
            assert(s.id_minted(s.tabs[i].id));
        }
    }
    assert forall|i: int|
        #![trigger s2.tabs[i]]
        0 <= i < s2.tabs.len() implies s2.has_user_id(s2.tabs[i].user_id) && s2.id_minted(
        s2.tabs[i].id,
    ) by {
        if i < s2.tabs.len() - 1 {
            lemma_has_user_id_frame(s, s2, s.tabs[i].user_id);
            lemma_id_minted_frame(s, s2, s.tabs[i].id);
        } else {
            lemma_has_user_id_frame(s, s2, v.user_id);
            assert(s2.tabs[i].id == dec_digits(s.next_id) && s.next_id < s2.next_id);
        }
    }
    assert forall|i: int|
        #![trigger s2.users[i]]
        0 <= i < s2.users.len() implies s2.id_minted(s2.users[i].id) by {
        lemma_id_minted_frame(s, s2, s.users[i].id);
    }
    assert forall|i: int|
        #![trigger s2.sessions[i]]
        0 <= i < s2.sessions.len() implies s2.has_user_id(s2.sessions[i].user_id) && s2.id_minted(
        s2.sessions[i].id,
    ) by {
        lemma_has_user_id_frame(s, s2, s.sessions[i].user_id);
        lemma_id_minted_frame(s, s2, s.sessions[i].id);
    }
    assert forall|i: int|
        #![trigger s2.invites[i]]
        0 <= i < s2.invites.len() implies s2.has_user_id(s2.invites[i].user_id) && s2.id_minted(
        s2.invites[i].id,
    ) by {
        lemma_has_user_id_frame(s, s2, s.invites[i].user_id);
        lemma_id_minted_frame(s, s2, s.invites[i].id);
    }
    assert forall|i: int|
        #![trigger s2.tags[i]]
        0 <= i < s2.tags.len() implies s2.has_user_id(s2.tags[i].user_id) && s2.id_minted(
        s2.tags[i].id,
    ) by {
        lemma_has_user_id_frame(s, s2, s.tags[i].user_id);
        lemma_id_minted_frame(s, s2, s.tags[i].id);
    }
    assert forall|i: int|
        #![trigger s2.tab_tags[i]]
        0 <= i < s2.tab_tags.len() implies s2.has_tab_id(s2.tab_tags[i].tab_id) && s2.has_tag_id(
        s2.tab_tags[i].tag_id,
    ) by {
        lemma_has_tab_id_frame(s, s2, s.tab_tags[i].tab_id);
        lemma_has_tag_id_frame(s, s2, s.tab_tags[i].tag_id);
    }
}

/// Inserting a tag with a counter-minted id for an existing user keeps the
/// store well-formed.
pub proof fn lemma_wf_insert_tag(s: StoreV, v: TagV)
    requires
        s.wf(),
        v.id == dec_digits(s.next_id),
        s.has_user_id(v.user_id),
    ensures
        (StoreV { tags: s.tags.push(v), next_id: s.next_id + 1, ..s }).wf(),
{
    let s2 = StoreV { tags: s.tags.push(v), next_id: s.next_id + 1, ..s };
    lemma_minted_ne_next(s);
    assert forall|i: int, j: int|
        #![trigger s2.tags[i], s2.tags[j]]
        0 <= i < j < s2.tags.len() implies s2.tags[i].id != s2.tags[j].id by {
        if j == s2.tags.len() - 1 {
            assert(s.id_minted(s.tags[i].id));
        }
    }
    assert forall|i: int|
        #![trigger s2.tags[i]]
        0 <= i < s2.tags.len() implies s2.has_user_id(s2.tags[i].user_id) && s2.id_minted(
        s2.tags[i].id,
    ) by {
        if i < s2.tags.len() - 1 {
            lemma_has_user_id_frame(s, s2, s.tags[i].user_id);
            lemma_id_minted_frame(s, s2, s.tags[i].id);
        } else {
            lemma_has_user_id_frame(s, s2, v.user_id);
            assert(s2.tags[i].id == dec_digits(s.next_id) && s.next_id < s2.next_id);
        }
    }
    assert forall|i: int|
        #![trigger s2.users[i]]
        0 <= i < s2.users.len() implies s2.id_minted(s2.users[i].id) by {
        lemma_id_minted_frame(s, s2, s.users[i].id);
    }
    assert forall|i: int|
        #![trigger s2.sessions[i]]
        0 <= i < s2.sessions.len() implies s2.has_user_id(s2.sessions[i].user_id) && s2.id_minted(
        s2.sessions[i].id,
    ) by {
        lemma_has_user_id_frame(s, s2, s.sessions[i].user_id);
        lemma_id_minted_frame(s, s2, s.sessions[i].id);
    }
    assert forall|i: int|
        #![trigger s2.invites[i]]
        0 <= i < s2.invites.len() implies s2.has_user_id(s2.invites[i].user_id) && s2.id_minted(
        s2.invites[i].id,
    ) by {
        lemma_has_user_id_frame(s, s2, s.invites[i].user_id);
        lemma_id_minted_frame(s, s2, s.invites[i].id);
    }
    assert forall|i: int|
        #![trigger s2.tabs[i]]
        0 <= i < s2.tabs.len() implies s2.has_user_id(s2.tabs[i].user_id) && s2.id_minted(
        s2.tabs[i].id,
    ) by {
        lemma_has_user_id_frame(s, s2, s.tabs[i].user_id);
        lemma_id_minted_frame(s, s2, s.tabs[i].id);
    }
    assert forall|i: int|
        #![trigger s2.tab_tags[i]]
        0 <= i < s2.tab_tags.len() implies s2.has_tab_id(s2.tab_tags[i].tab_id) && s2.has_tag_id(
        s2.tab_tags[i].tag_id,
    ) by {
        lemma_has_tab_id_frame(s, s2, s.tab_tags[i].tab_id);
        lemma_has_tag_id_frame(s, s2, s.tab_tags[i].tag_id);
    }
}

/// Inserting a not-yet-present association between an existing tab and an
/// existing tag keeps the store well-formed. The counter does not move.
pub proof fn lemma_wf_insert_tab_tag(s: StoreV, v: TabTagV)
    requires
        s.wf(),
        s.has_tab_id(v.tab_id),
        s.has_tag_id(v.tag_id),
        !s.has_tab_tag(v.tab_id, v.tag_id),
    ensures
        (StoreV { tab_tags: s.tab_tags.push(v), ..s }).wf(),
{
    let s2 = StoreV { tab_tags: s.tab_tags.push(v), ..s };
    assert forall|i: int, j: int|
        #![trigger s2.tab_tags[i], s2.tab_tags[j]]
        0 <= i < j < s2.tab_tags.len() implies !(s2.tab_tags[i].tab_id == s2.tab_tags[j].tab_id
        && s2.tab_tags[i].tag_id == s2.tab_tags[j].tag_id) by {
        if j == s2.tab_tags.len() - 1 {
            if s2.tab_tags[i].tab_id == v.tab_id && s2.tab_tags[i].tag_id == v.tag_id {
                assert(s.has_tab_tag(v.tab_id, v.tag_id));
            }
        }
    }
    assert forall|i: int|
        #![trigger s2.tab_tags[i]]
        0 <= i < s2.tab_tags.len() implies s2.has_tab_id(s2.tab_tags[i].tab_id) && s2.has_tag_id(
        s2.tab_tags[i].tag_id,
    ) by {
        if i < s2.tab_tags.len() - 1 {
            lemma_has_tab_id_frame(s, s2, s.tab_tags[i].tab_id);
            lemma_has_tag_id_frame(s, s2, s.tab_tags[i].tag_id);
        } else {
            lemma_has_tab_id_frame(s, s2, v.tab_id);
            lemma_has_tag_id_frame(s, s2, v.tag_id);
        }
    }
    assert forall|i: int|
        #![trigger s2.users[i]]
        0 <= i < s2.users.len() implies s2.id_minted(s2.users[i].id) by {
        lemma_id_minted_frame(s, s2, s.users[i].id);
    }
    assert forall|i: int|
        #![trigger s2.sessions[i]]
        0 <= i < s2.sessions.len() implies s2.has_user_id(s2.sessions[i].user_id) && s2.id_minted(
        s2.sessions[i].id,
    ) by {
        lemma_has_user_id_frame(s, s2, s.sessions[i].user_id);
        lemma_id_minted_frame(s, s2, s.sessions[i].id);
    }
    assert forall|i: int|
        #![trigger s2.invites[i]]
        0 <= i < s2.invites.len() implies s2.has_user_id(s2.invites[i].user_id) && s2.id_minted(
        s2.invites[i].id,
    ) by {
        lemma_has_user_id_frame(s, s2, s.invites[i].user_id);
        lemma_id_minted_frame(s, s2, s.invites[i].id);
    }
    assert forall|i: int|
        #![trigger s2.tabs[i]]
        0 <= i < s2.tabs.len() implies s2.has_user_id(s2.tabs[i].user_id) && s2.id_minted(
        s2.tabs[i].id,
    ) by {
        lemma_has_user_id_frame(s, s2, s.tabs[i].user_id);
        lemma_id_minted_frame(s, s2, s.tabs[i].id);
    }
    assert forall|i: int|
        #![trigger s2.tags[i]]
        0 <= i < s2.tags.len() implies s2.has_user_id(s2.tags[i].user_id) && s2.id_minted(
        s2.tags[i].id,
    ) by {
        lemma_has_user_id_frame(s, s2, s.tags[i].user_id);
        lemma_id_minted_frame(s, s2, s.tags[i].id);
    }
}

/// Shared tail of the removal lemmas: with users, tabs and tags unchanged and
/// the counter in place, the conjuncts about users, tabs and tags carry over.
proof fn lemma_wf_shrink_frame(s0: StoreV, s2: StoreV)
    requires
        s0.wf(),
        s2.next_id == s0.next_id,
        s2.users == s0.users,
        s2.tabs == s0.tabs,
        s2.tags == s0.tags,
    ensures
        s2.users_wf(),
        s2.tabs_wf(),
        s2.tags_wf(),
        forall|i: int|
            #![trigger s2.users[i]]
            0 <= i < s2.users.len() ==> s2.id_minted(s2.users[i].id),
        forall|i: int|
            #![trigger s2.tabs[i]]
            0 <= i < s2.tabs.len() ==> s2.id_minted(s2.tabs[i].id),
        forall|i: int|
            #![trigger s2.tags[i]]
            0 <= i < s2.tags.len() ==> s2.id_minted(s2.tags[i].id),
{
    assert forall|i: int|
        #![trigger s2.users[i]]
        0 <= i < s2.users.len() implies s2.id_minted(s2.users[i].id) by {
        lemma_id_minted_frame(s0, s2, s0.users[i].id);
    }
    assert forall|i: int|
        #![trigger s2.tabs[i]]
        0 <= i < s2.tabs.len() implies s2.has_user_id(s2.tabs[i].user_id) && s2.id_minted(
        s2.tabs[i].id,
    ) by {
        lemma_has_user_id_frame(s0, s2, s0.tabs[i].user_id);
        lemma_id_minted_frame(s0, s2, s0.tabs[i].id);
    }
    assert forall|i: int|
        #![trigger s2.tags[i]]
        0 <= i < s2.tags.len() implies s2.has_user_id(s2.tags[i].user_id) && s2.id_minted(
        s2.tags[i].id,
    ) by {
        lemma_has_user_id_frame(s0, s2, s0.tags[i].user_id);
        lemma_id_minted_frame(s0, s2, s0.tags[i].id);
    }
}

/// Removing one session row keeps the store well-formed.
pub proof fn lemma_wf_remove_session(s: StoreV, i: int)
    requires
        s.wf(),
        0 <= i < s.sessions.len(),
    ensures
        (StoreV { sessions: s.sessions.remove(i), ..s }).wf(),
{
    let s2 = StoreV { sessions: s.sessions.remove(i), ..s };
    lemma_wf_shrink_frame(s, s2);
    assert forall|a: int, b: int|
        #![trigger s2.sessions[a], s2.sessions[b]]
        0 <= a < b < s2.sessions.len() implies s2.sessions[a].id != s2.sessions[b].id
        && s2.sessions[a].user_id != s2.sessions[b].user_id by {
        let a0 = if a < i { a } else { a + 1 };
        let b0 = if b < i { b } else { b + 1 };
        assert(s2.sessions[a] == s.sessions[a0] && s2.sessions[b] == s.sessions[b0]);
    }
    assert forall|a: int|
        #![trigger s2.sessions[a]]
        0 <= a < s2.sessions.len() implies s2.has_user_id(s2.sessions[a].user_id) && s2.id_minted(
        s2.sessions[a].id,
    ) by {
        let a0 = if a < i { a } else { a + 1 };
        assert(s2.sessions[a] == s.sessions[a0]);
        lemma_has_user_id_frame(s, s2, s.sessions[a0].user_id);
        lemma_id_minted_frame(s, s2, s.sessions[a0].id);
    }
    assert forall|a: int|
        #![trigger s2.invites[a]]
        0 <= a < s2.invites.len() implies s2.has_user_id(s2.invites[a].user_id) && s2.id_minted(
        s2.invites[a].id,
    ) by {
        lemma_has_user_id_frame(s, s2, s.invites[a].user_id);
        lemma_id_minted_frame(s, s2, s.invites[a].id);
    }
    assert forall|a: int|
        #![trigger s2.tab_tags[a]]
        0 <= a < s2.tab_tags.len() implies s2.has_tab_id(s2.tab_tags[a].tab_id) && s2.has_tag_id(
        s2.tab_tags[a].tag_id,
    ) by {
        lemma_has_tab_id_frame(s, s2, s.tab_tags[a].tab_id);
        lemma_has_tag_id_frame(s, s2, s.tab_tags[a].tag_id);
    }
}

/// Removing one invite row keeps the store well-formed.
pub proof fn lemma_wf_remove_invite(s: StoreV, i: int)
    requires
        s.wf(),
        0 <= i < s.invites.len(),
    ensures
        (StoreV { invites: s.invites.remove(i), ..s }).wf(),
{
    let s2 = StoreV { invites: s.invites.remove(i), ..s };
    lemma_wf_shrink_frame(s, s2);
    assert forall|a: int, b: int|
        #![trigger s2.invites[a], s2.invites[b]]
        0 <= a < b < s2.invites.len() implies s2.invites[a].id != s2.invites[b].id by {
        let a0 = if a < i { a } else { a + 1 };
        let b0 = if b < i { b } else { b + 1 };
        assert(s2.invites[a] == s.invites[a0] && s2.invites[b] == s.invites[b0]);
    }
    assert forall|a: int|
        #![trigger s2.invites[a]]
        0 <= a < s2.invites.len() implies s2.has_user_id(s2.invites[a].user_id) && s2.id_minted(
        s2.invites[a].id,
    ) by {
        let a0 = if a < i { a } else { a + 1 };
        assert(s2.invites[a] == s.invites[a0]);
        lemma_has_user_id_frame(s, s2, s.invites[a0].user_id);
        lemma_id_minted_frame(s, s2, s.invites[a0].id);
    }
    assert forall|a: int|
        #![trigger s2.sessions[a]]
        0 <= a < s2.sessions.len() implies s2.has_user_id(s2.sessions[a].user_id) && s2.id_minted(
        s2.sessions[a].id,
    ) by {
        lemma_has_user_id_frame(s, s2, s.sessions[a].user_id);
        lemma_id_minted_frame(s, s2, s.sessions[a].id);
    }
    assert forall|a: int|
        #![trigger s2.tab_tags[a]]
        0 <= a < s2.tab_tags.len() implies s2.has_tab_id(s2.tab_tags[a].tab_id) && s2.has_tag_id(
        s2.tab_tags[a].tag_id,
    ) by {
        lemma_has_tab_id_frame(s, s2, s.tab_tags[a].tab_id);
        lemma_has_tag_id_frame(s, s2, s.tab_tags[a].tag_id);
    }
}

/// Removing one association row keeps the store well-formed.
pub proof fn lemma_wf_remove_tab_tag(s: StoreV, i: int)
    requires
        s.wf(),
        0 <= i < s.tab_tags.len(),
    ensures
        (StoreV { tab_tags: s.tab_tags.remove(i), ..s }).wf(),
{
    let s2 = StoreV { tab_tags: s.tab_tags.remove(i), ..s };
    lemma_wf_shrink_frame(s, s2);
    assert forall|a: int, b: int|
        #![trigger s2.tab_tags[a], s2.tab_tags[b]]
        0 <= a < b < s2.tab_tags.len() implies !(s2.tab_tags[a].tab_id == s2.tab_tags[b].tab_id
        && s2.tab_tags[a].tag_id == s2.tab_tags[b].tag_id) by {
        let a0 = if a < i { a } else { a + 1 };
        let b0 = if b < i { b } else { b + 1 };
        assert(s2.tab_tags[a] == s.tab_tags[a0] && s2.tab_tags[b] == s.tab_tags[b0]);
    }
    assert forall|a: int|
        #![trigger s2.tab_tags[a]]
        0 <= a < s2.tab_tags.len() implies s2.has_tab_id(s2.tab_tags[a].tab_id) && s2.has_tag_id(
        s2.tab_tags[a].tag_id,
    ) by {
        let a0 = if a < i { a } else { a + 1 };
        assert(s2.tab_tags[a] == s.tab_tags[a0]);
        lemma_has_tab_id_frame(s, s2, s.tab_tags[a0].tab_id);
        lemma_has_tag_id_frame(s, s2, s.tab_tags[a0].tag_id);
    }
    assert forall|a: int|
        #![trigger s2.sessions[a]]
        0 <= a < s2.sessions.len() implies s2.has_user_id(s2.sessions[a].user_id) && s2.id_minted(
        s2.sessions[a].id,
    ) by {
        lemma_has_user_id_frame(s, s2, s.sessions[a].user_id);
        lemma_id_minted_frame(s, s2, s.sessions[a].id);
    }
    assert forall|a: int|
        #![trigger s2.invites[a]]
        0 <= a < s2.invites.len() implies s2.has_user_id(s2.invites[a].user_id) && s2.id_minted(
        s2.invites[a].id,
    ) by {
        lemma_has_user_id_frame(s, s2, s.invites[a].user_id);
        lemma_id_minted_frame(s, s2, s.invites[a].id);
    }
}

/// Removing one tab row that no association references keeps the store
/// well-formed.
pub proof fn lemma_wf_remove_tab(s: StoreV, i: int)
    requires
        s.wf(),
        0 <= i < s.tabs.len(),
        forall|a: int|
            #![trigger s.tab_tags[a]]
            0 <= a < s.tab_tags.len() ==> s.tab_tags[a].tab_id != s.tabs[i].id,
    ensures
        (StoreV { tabs: s.tabs.remove(i), ..s }).wf(),
{
    let s2 = StoreV { tabs: s.tabs.remove(i), ..s };
    assert forall|a: int, b: int|
        #![trigger s2.tabs[a], s2.tabs[b]]
        0 <= a < b < s2.tabs.len() implies s2.tabs[a].id != s2.tabs[b].id by {
        let a0 = if a < i { a } else { a + 1 };
        let b0 = if b < i { b } else { b + 1 };
        assert(s2.tabs[a] == s.tabs[a0] && s2.tabs[b] == s.tabs[b0]);
    }
    assert forall|a: int|
        #![trigger s2.tabs[a]]
        0 <= a < s2.tabs.len() implies s2.has_user_id(s2.tabs[a].user_id) && s2.id_minted(
        s2.tabs[a].id,
    ) by {
        let a0 = if a < i { a } else { a + 1 };
        assert(s2.tabs[a] == s.tabs[a0]);
        lemma_has_user_id_frame(s, s2, s.tabs[a0].user_id);
        lemma_id_minted_frame(s, s2, s.tabs[a0].id);
    }
    assert forall|a: int|
        #![trigger s2.users[a]]
        0 <= a < s2.users.len() implies s2.id_minted(s2.users[a].id) by {
        lemma_id_minted_frame(s, s2, s.users[a].id);
    }
    assert forall|a: int|
        #![trigger s2.sessions[a]]
        0 <= a < s2.sessions.len() implies s2.has_user_id(s2.sessions[a].user_id) && s2.id_minted(
        s2.sessions[a].id,
    ) by {
        lemma_has_user_id_frame(s, s2, s.sessions[a].user_id);
        lemma_id_minted_frame(s, s2, s.sessions[a].id);
    }
    assert forall|a: int|
        #![trigger s2.invites[a]]
        0 <= a < s2.invites.len() implies s2.has_user_id(s2.invites[a].user_id) && s2.id_minted(
        s2.invites[a].id,
    ) by {
        lemma_has_user_id_frame(s, s2, s.invites[a].user_id);
        lemma_id_minted_frame(s, s2, s.invites[a].id);
    }
    assert forall|a: int|
        #![trigger s2.tags[a]]
        0 <= a < s2.tags.len() implies s2.has_user_id(s2.tags[a].user_id) && s2.id_minted(
        s2.tags[a].id,
    ) by {
        lemma_has_user_id_frame(s, s2, s.tags[a].user_id);
        lemma_id_minted_frame(s, s2, s.tags[a].id);
    }
    assert forall|a: int|
        #![trigger s2.tab_tags[a]]
        0 <= a < s2.tab_tags.len() implies s2.has_tab_id(s2.tab_tags[a].tab_id) && s2.has_tag_id(
        s2.tab_tags[a].tag_id,
    ) by {
        lemma_has_tag_id_frame(s, s2, s.tab_tags[a].tag_id);
        let w = choose|w: int| 0 <= w < s.tabs.len() && s.tabs[w].id == s.tab_tags[a].tab_id;
        assert(w != i);
        let w2 = if w < i { w } else { w - 1 };
        assert(s2.tabs[w2] == s.tabs[w]);
    }
}

/// Removing one tag row that no association references keeps the store
/// well-formed.
pub proof fn lemma_wf_remove_tag(s: StoreV, i: int)
    requires
        s.wf(),
        0 <= i < s.tags.len(),
        forall|a: int|
            #![trigger s.tab_tags[a]]
            0 <= a < s.tab_tags.len() ==> s.tab_tags[a].tag_id != s.tags[i].id,
    ensures
        (StoreV { tags: s.tags.remove(i), ..s }).wf(),
{
    let s2 = StoreV { tags: s.tags.remove(i), ..s };
    assert forall|a: int, b: int|
        #![trigger s2.tags[a], s2.tags[b]]
        0 <= a < b < s2.tags.len() implies s2.tags[a].id != s2.tags[b].id by {
        let a0 = if a < i { a } else { a + 1 };
        let b0 = if b < i { b } else { b + 1 };
        assert(s2.tags[a] == s.tags[a0] && s2.tags[b] == s.tags[b0]);
    }
    assert forall|a: int|
        #![trigger s2.tags[a]]
        0 <= a < s2.tags.len() implies s2.has_user_id(s2.tags[a].user_id) && s2.id_minted(
        s2.tags[a].id,
    ) by {
        let a0 = if a < i { a } else { a + 1 };
        assert(s2.tags[a] == s.tags[a0]);
        lemma_has_user_id_frame(s, s2, s.tags[a0].user_id);
        lemma_id_minted_frame(s, s2, s.tags[a0].id);
    }
    assert forall|a: int|
        #![trigger s2.users[a]]
        0 <= a < s2.users.len() implies s2.id_minted(s2.users[a].id) by {
        lemma_id_minted_frame(s, s2, s.users[a].id);
    }
    assert forall|a: int|
        #![trigger s2.sessions[a]]
        0 <= a < s2.sessions.len() implies s2.has_user_id(s2.sessions[a].user_id) && s2.id_minted(
        s2.sessions[a].id,
    ) by {
        lemma_has_user_id_frame(s, s2, s.sessions[a].user_id);
        lemma_id_minted_frame(s, s2, s.sessions[a].id);
    }
    assert forall|a: int|
        #![trigger s2.invites[a]]
        0 <= a < s2.invites.len() implies s2.has_user_id(s2.invites[a].user_id) && s2.id_minted(
        s2.invites[a].id,
    ) by {
        lemma_has_user_id_frame(s, s2, s.invites[a].user_id);
        lemma_id_minted_frame(s, s2, s.invites[a].id);
    }
    assert forall|a: int|
        #![trigger s2.tabs[a]]
        0 <= a < s2.tabs.len() implies s2.has_user_id(s2.tabs[a].user_id) && s2.id_minted(
        s2.tabs[a].id,
    ) by {
        lemma_has_user_id_frame(s, s2, s.tabs[a].user_id);
        lemma_id_minted_frame(s, s2, s.tabs[a].id);
    }
    assert forall|a: int|
        #![trigger s2.tab_tags[a]]
        0 <= a < s2.tab_tags.len() implies s2.has_tab_id(s2.tab_tags[a].tab_id) && s2.has_tag_id(
        s2.tab_tags[a].tag_id,
    ) by {
        lemma_has_tab_id_frame(s, s2, s.tab_tags[a].tab_id);
        let w = choose|w: int| 0 <= w < s.tags.len() && s.tags[w].id == s.tab_tags[a].tag_id;
        assert(w != i);
        let w2 = if w < i { w } else { w - 1 };
        assert(s2.tags[w2] == s.tags[w]);
    }
}

/// Replacing one user row without touching its id or email keeps the store
/// well-formed.
pub proof fn lemma_wf_update_user(s: StoreV, i: int, u2: UserV)
    requires
        s.wf(),
        0 <= i < s.users.len(),
        u2.id == s.users[i].id,
        u2.email == s.users[i].email,
    ensures
        (StoreV { users: s.users.update(i, u2), ..s }).wf(),
{
    let s2 = StoreV { users: s.users.update(i, u2), ..s };
    assert forall|a: int, b: int|
        #![trigger s2.users[a], s2.users[b]]
        0 <= a < b < s2.users.len() implies s2.users[a].id != s2.users[b].id && s2.users[a].email
        != s2.users[b].email by {
        assert(s2.users[a].id == s.users[a].id && s2.users[a].email == s.users[a].email);
        assert(s2.users[b].id == s.users[b].id && s2.users[b].email == s.users[b].email);
    }
    assert forall|a: int|
        #![trigger s2.users[a]]
        0 <= a < s2.users.len() implies s2.id_minted(s2.users[a].id) by {
        assert(s2.users[a].id == s.users[a].id);
        lemma_id_minted_frame(s, s2, s.users[a].id);
    }
    assert(forall|id: Seq<char>| s.has_user_id(id) ==> #[trigger] s2.has_user_id(id)) by {
        assert forall|id: Seq<char>| s.has_user_id(id) implies #[trigger] s2.has_user_id(id) by {
            let w = choose|w: int| 0 <= w < s.users.len() && s.users[w].id == id;
            assert(s2.users[w].id == id);
        }
    }
    assert forall|a: int|
        #![trigger s2.sessions[a]]
        0 <= a < s2.sessions.len() implies s2.has_user_id(s2.sessions[a].user_id) && s2.id_minted(
        s2.sessions[a].id,
    ) by {
        lemma_id_minted_frame(s, s2, s.sessions[a].id);
    }
    assert forall|a: int|
        #![trigger s2.invites[a]]
        0 <= a < s2.invites.len() implies s2.has_user_id(s2.invites[a].user_id) && s2.id_minted(
        s2.invites[a].id,
    ) by {
        lemma_id_minted_frame(s, s2, s.invites[a].id);
    }
    assert forall|a: int|
        #![trigger s2.tabs[a]]
        0 <= a < s2.tabs.len() implies s2.has_user_id(s2.tabs[a].user_id) && s2.id_minted(
        s2.tabs[a].id,
    ) by {
        lemma_id_minted_frame(s, s2, s.tabs[a].id);
    }
    assert forall|a: int|
        #![trigger s2.tags[a]]
        0 <= a < s2.tags.len() implies s2.has_user_id(s2.tags[a].user_id) && s2.id_minted(
        s2.tags[a].id,
    ) by {
        lemma_id_minted_frame(s, s2, s.tags[a].id);
    }
    assert forall|a: int|
        #![trigger s2.tab_tags[a]]
        0 <= a < s2.tab_tags.len() implies s2.has_tab_id(s2.tab_tags[a].tab_id) && s2.has_tag_id(
        s2.tab_tags[a].tag_id,
    ) by {
        lemma_has_tab_id_frame(s, s2, s.tab_tags[a].tab_id);
        lemma_has_tag_id_frame(s, s2, s.tab_tags[a].tag_id);
    }
}

/// Replacing one invite row without touching its id or user keeps the store
/// well-formed.
pub proof fn lemma_wf_update_invite(s: StoreV, i: int, v2: InviteV)
    requires
        s.wf(),
        0 <= i < s.invites.len(),
        v2.id == s.invites[i].id,
        v2.user_id == s.invites[i].user_id,
    ensures
        (StoreV { invites: s.invites.update(i, v2), ..s }).wf(),
{
    let s2 = StoreV { invites: s.invites.update(i, v2), ..s };
    lemma_wf_shrink_frame(s, s2);
    assert forall|a: int, b: int|
        #![trigger s2.invites[a], s2.invites[b]]
        0 <= a < b < s2.invites.len() implies s2.invites[a].id != s2.invites[b].id by {
        assert(s2.invites[a].id == s.invites[a].id);
        assert(s2.invites[b].id == s.invites[b].id);
    }
    assert forall|a: int|
        #![trigger s2.invites[a]]
        0 <= a < s2.invites.len() implies s2.has_user_id(s2.invites[a].user_id) && s2.id_minted(
        s2.invites[a].id,
    ) by {
        assert(s2.invites[a].id == s.invites[a].id && s2.invites[a].user_id == s.invites[
            a
        ].user_id);
        lemma_has_user_id_frame(s, s2, s.invites[a].user_id);
        lemma_id_minted_frame(s, s2, s.invites[a].id);
    }
    assert forall|a: int|
        #![trigger s2.sessions[a]]
        0 <= a < s2.sessions.len() implies s2.has_user_id(s2.sessions[a].user_id) && s2.id_minted(
        s2.sessions[a].id,
    ) by {
        lemma_has_user_id_frame(s, s2, s.sessions[a].user_id);
        lemma_id_minted_frame(s, s2, s.sessions[a].id);
    }
    assert forall|a: int|
        #![trigger s2.tab_tags[a]]
        0 <= a < s2.tab_tags.len() implies s2.has_tab_id(s2.tab_tags[a].tab_id) && s2.has_tag_id(
        s2.tab_tags[a].tag_id,
    ) by {
        lemma_has_tab_id_frame(s, s2, s.tab_tags[a].tab_id);
        lemma_has_tag_id_frame(s, s2, s.tab_tags[a].tag_id);
    }
}

/// Replacing one tab row without touching its id or owner keeps the store
/// well-formed.
pub proof fn lemma_wf_update_tab(s: StoreV, i: int, v2: TabV)
    requires
        s.wf(),
        0 <= i < s.tabs.len(),
        v2.id == s.tabs[i].id,
        v2.user_id == s.tabs[i].user_id,
    ensures
        (StoreV { tabs: s.tabs.update(i, v2), ..s }).wf(),
{
    let s2 = StoreV { tabs: s.tabs.update(i, v2), ..s };
    assert forall|a: int, b: int|
        #![trigger s2.tabs[a], s2.tabs[b]]
        0 <= a < b < s2.tabs.len() implies s2.tabs[a].id != s2.tabs[b].id by {
        assert(s2.tabs[a].id == s.tabs[a].id);
        assert(s2.tabs[b].id == s.tabs[b].id);
    }
    assert forall|a: int|
        #![trigger s2.tabs[a]]
        0 <= a < s2.tabs.len() implies s2.has_user_id(s2.tabs[a].user_id) && s2.id_minted(
        s2.tabs[a].id,
    ) by {
        assert(s2.tabs[a].id == s.tabs[a].id && s2.tabs[a].user_id == s.tabs[a].user_id);
        lemma_has_user_id_frame(s, s2, s.tabs[a].user_id);
        lemma_id_minted_frame(s, s2, s.tabs[a].id);
    }
    assert forall|a: int|
        #![trigger s2.users[a]]
        0 <= a < s2.users.len() implies s2.id_minted(s2.users[a].id) by {
        lemma_id_minted_frame(s, s2, s.users[a].id);
    }
    assert forall|a: int|
        #![trigger s2.sessions[a]]
        0 <= a < s2.sessions.len() implies s2.has_user_id(s2.sessions[a].user_id) && s2.id_minted(
        s2.sessions[a].id,
    ) by {
        lemma_has_user_id_frame(s, s2, s.sessions[a].user_id);
        lemma_id_minted_frame(s, s2, s.sessions[a].id);
    }
    assert forall|a: int|
        #![trigger s2.invites[a]]
        0 <= a < s2.invites.len() implies s2.has_user_id(s2.invites[a].user_id) && s2.id_minted(
        s2.invites[a].id,
    ) by {
        lemma_has_user_id_frame(s, s2, s.invites[a].user_id);
        lemma_id_minted_frame(s, s2, s.invites[a].id);
    }
    assert forall|a: int|
        #![trigger s2.tags[a]]
        0 <= a < s2.tags.len() implies s2.has_user_id(s2.tags[a].user_id) && s2.id_minted(
        s2.tags[a].id,
    ) by {
        lemma_has_user_id_frame(s, s2, s.tags[a].user_id);
        lemma_id_minted_frame(s, s2, s.tags[a].id);
    }
    assert forall|a: int|
        #![trigger s2.tab_tags[a]]
        0 <= a < s2.tab_tags.len() implies s2.has_tab_id(s2.tab_tags[a].tab_id) && s2.has_tag_id(
        s2.tab_tags[a].tag_id,
    ) by {
        lemma_has_tag_id_frame(s, s2, s.tab_tags[a].tag_id);
        let w = choose|w: int| 0 <= w < s.tabs.len() && s.tabs[w].id == s.tab_tags[a].tab_id;
        assert(s2.tabs[w].id == s.tabs[w].id);
    }
}

/// Replacing the association table wholesale keeps the store well-formed, as
/// long as the new rows are pairwise distinct and reference existing tabs and
/// tags.
pub proof fn lemma_wf_replace_tab_tags(s: StoreV, tts: Seq<TabTagV>)
    requires
        s.wf(),
        forall|a: int, b: int|
            #![trigger tts[a], tts[b]]
            0 <= a < b < tts.len() ==> !(tts[a].tab_id == tts[b].tab_id && tts[a].tag_id
                == tts[b].tag_id),
        forall|a: int|
            #![trigger tts[a]]
            0 <= a < tts.len() ==> s.has_tab_id(tts[a].tab_id) && s.has_tag_id(tts[a].tag_id),
    ensures
        (StoreV { tab_tags: tts, ..s }).wf(),
{
    let s2 = StoreV { tab_tags: tts, ..s };
    lemma_wf_shrink_frame(s, s2);
    assert forall|a: int|
        #![trigger s2.tab_tags[a]]
        0 <= a < s2.tab_tags.len() implies s2.has_tab_id(s2.tab_tags[a].tab_id) && s2.has_tag_id(
        s2.tab_tags[a].tag_id,
    ) by {
        lemma_has_tab_id_frame(s, s2, tts[a].tab_id);
        lemma_has_tag_id_frame(s, s2, tts[a].tag_id);
    }
    assert forall|a: int|
        #![trigger s2.sessions[a]]
        0 <= a < s2.sessions.len() implies s2.has_user_id(s2.sessions[a].user_id) && s2.id_minted(
        s2.sessions[a].id,
    ) by {
        lemma_has_user_id_frame(s, s2, s.sessions[a].user_id);
        lemma_id_minted_frame(s, s2, s.sessions[a].id);
    }
    assert forall|a: int|
        #![trigger s2.invites[a]]
        0 <= a < s2.invites.len() implies s2.has_user_id(s2.invites[a].user_id) && s2.id_minted(
        s2.invites[a].id,
    ) by {
        lemma_has_user_id_frame(s, s2, s.invites[a].user_id);
        lemma_id_minted_frame(s, s2, s.invites[a].id);
    }
}

/// Replacing the tab, tag and association tables wholesale keeps the store
/// well-formed: the remaining tab and tag rows must be rows of the old store
/// with pairwise-distinct ids, and the remaining associations pairwise
/// distinct with both ends still present.
pub proof fn lemma_wf_replace(s: StoreV, tabs2: Seq<TabV>, tags2: Seq<TagV>, tts2: Seq<TabTagV>)
    requires
        s.wf(),
        forall|a: int, b: int|
            #![trigger tabs2[a], tabs2[b]]
            0 <= a < b < tabs2.len() ==> tabs2[a].id != tabs2[b].id,
        forall|a: int|
            #![trigger tabs2[a]]
            0 <= a < tabs2.len() ==> exists|b: int|
                0 <= b < s.tabs.len() && tabs2[a] == #[trigger] s.tabs[b],
        forall|a: int, b: int|
            #![trigger tags2[a], tags2[b]]
            0 <= a < b < tags2.len() ==> tags2[a].id != tags2[b].id,
        forall|a: int|
            #![trigger tags2[a]]
            0 <= a < tags2.len() ==> exists|b: int|
                0 <= b < s.tags.len() && tags2[a] == #[trigger] s.tags[b],
        forall|a: int, b: int|
            #![trigger tts2[a], tts2[b]]
            0 <= a < b < tts2.len() ==> !(tts2[a].tab_id == tts2[b].tab_id && tts2[a].tag_id
                == tts2[b].tag_id),
        forall|a: int|
            #![trigger tts2[a]]
            0 <= a < tts2.len() ==> (exists|b: int|
                0 <= b < tabs2.len() && #[trigger] tabs2[b].id == tts2[a].tab_id) && (exists|b: int|
                0 <= b < tags2.len() && #[trigger] tags2[b].id == tts2[a].tag_id),
    ensures
        (StoreV { tabs: tabs2, tags: tags2, tab_tags: tts2, ..s }).wf(),
{
    let s2 = StoreV { tabs: tabs2, tags: tags2, tab_tags: tts2, ..s };
    assert forall|a: int|
        #![trigger s2.tabs[a]]
        0 <= a < s2.tabs.len() implies s2.has_user_id(s2.tabs[a].user_id) && s2.id_minted(
        s2.tabs[a].id,
    ) by {
        let b = choose|b: int| 0 <= b < s.tabs.len() && tabs2[a] == #[trigger] s.tabs[b];
        lemma_has_user_id_frame(s, s2, s.tabs[b].user_id);
        lemma_id_minted_frame(s, s2, s.tabs[b].id);
    }
    assert forall|a: int|
        #![trigger s2.tags[a]]
        0 <= a < s2.tags.len() implies s2.has_user_id(s2.tags[a].user_id) && s2.id_minted(
        s2.tags[a].id,
    ) by {
        let b = choose|b: int| 0 <= b < s.tags.len() && tags2[a] == #[trigger] s.tags[b];
        lemma_has_user_id_frame(s, s2, s.tags[b].user_id);
        lemma_id_minted_frame(s, s2, s.tags[b].id);
    }
    assert forall|a: int|
        #![trigger s2.users[a]]
        0 <= a < s2.users.len() implies s2.id_minted(s2.users[a].id) by {
        lemma_id_minted_frame(s, s2, s.users[a].id);
    }
    assert forall|a: int|
        #![trigger s2.sessions[a]]
        0 <= a < s2.sessions.len() implies s2.has_user_id(s2.sessions[a].user_id) && s2.id_minted(
        s2.sessions[a].id,
    ) by {
        lemma_has_user_id_frame(s, s2, s.sessions[a].user_id);
        lemma_id_minted_frame(s, s2, s.sessions[a].id);
    }
    assert forall|a: int|
        #![trigger s2.invites[a]]
        0 <= a < s2.invites.len() implies s2.has_user_id(s2.invites[a].user_id) && s2.id_minted(
        s2.invites[a].id,
    ) by {
        lemma_has_user_id_frame(s, s2, s.invites[a].user_id);
        lemma_id_minted_frame(s, s2, s.invites[a].id);
    }
    assert forall|a: int|
        #![trigger s2.tab_tags[a]]
        0 <= a < s2.tab_tags.len() implies s2.has_tab_id(s2.tab_tags[a].tab_id) && s2.has_tag_id(
        s2.tab_tags[a].tag_id,
    ) by {
        let b1 = choose|b: int| 0 <= b < tabs2.len() && #[trigger] tabs2[b].id == tts2[a].tab_id;
        assert(s2.tabs[b1].id == tts2[a].tab_id);
        let b2 = choose|b: int| 0 <= b < tags2.len() && #[trigger] tags2[b].id == tts2[a].tag_id;
        assert(s2.tags[b2].id == tts2[a].tag_id);
    }
}

impl Store {
    /// An empty store.
    pub fn new() -> (r: Store)
        ensures
            r@.wf(),
            r@.users == Seq::<UserV>::empty(),
            r@.invites == Seq::<InviteV>::empty(),
            r@.sessions == Seq::<SessionV>::empty(),
            r@.tabs == Seq::<TabV>::empty(),
            r@.tags == Seq::<TagV>::empty(),
            r@.tab_tags == Seq::<TabTagV>::empty(),
            r@.next_id == 0,
    {
        let r = Store {
            users: Vec::new(),
            invites: Vec::new(),
            sessions: Vec::new(),
            tabs: Vec::new(),
            tags: Vec::new(),
            tab_tags: Vec::new(),
            next_id: 0,
        };
        proof {
            assert(r@.users =~= Seq::<UserV>::empty());
            assert(r@.invites =~= Seq::<InviteV>::empty());
            assert(r@.sessions =~= Seq::<SessionV>::empty());
            assert(r@.tabs =~= Seq::<TabV>::empty());
            assert(r@.tags =~= Seq::<TagV>::empty());
            assert(r@.tab_tags =~= Seq::<TabTagV>::empty());
        }
        r
    }

    /// How many fresh ids the counter can still mint.
    pub fn id_headroom(&self) -> (r: u64)
        ensures
            r as nat == u64::MAX - self@.next_id,
    {
        u64::MAX - self.next_id
    }

    // ---- finders ----

    pub fn find_user_by_email(&self, email: &String) -> (r: Option<usize>)
        ensures
            match r {
                Some(i) => i < self@.users.len() && self@.users[i as int].email == email@,
                None => !self@.has_user_email(email@),
            },
    {
        let n = self.users.len();
        for i in 0..n
            invariant
                n == self.users.len(),
                forall|j: int| #![trigger self@.users[j]] 0 <= j < i ==> self@.users[j].email != email@,
        {
            if self.users[i].email == *email {
                return Some(i);
            }
        }
        None
    }

    pub fn find_user_by_id(&self, id: &String) -> (r: Option<usize>)
        ensures
            match r {
                Some(i) => i < self@.users.len() && self@.users[i as int].id == id@,
                None => !self@.has_user_id(id@),
            },
    {
        let n = self.users.len();
        for i in 0..n
            invariant
                n == self.users.len(),
                forall|j: int| #![trigger self@.users[j]] 0 <= j < i ==> self@.users[j].id != id@,
        {
            if self.users[i].id == *id {
                return Some(i);
            }
        }
        None
    }

    pub fn find_session_by_user(&self, user_id: &String) -> (r: Option<usize>)
        ensures
            match r {
                Some(i) => i < self@.sessions.len() && self@.sessions[i as int].user_id == user_id@,
                None => !self@.has_session_for_user(user_id@),
            },
    {
        let n = self.sessions.len();
        for i in 0..n
            invariant
                n == self.sessions.len(),
                forall|j: int|
                    #![trigger self@.sessions[j]]
                    0 <= j < i ==> self@.sessions[j].user_id != user_id@,
        {
            if self.sessions[i].user_id == *user_id {
                return Some(i);
            }
        }
        None
    }

    pub fn find_session_by_id(&self, id: &String) -> (r: Option<usize>)
        ensures
            match r {
                Some(i) => i < self@.sessions.len() && self@.sessions[i as int].id == id@,
                None => !self@.has_session_id(id@),
            },
    {
        let n = self.sessions.len();
        for i in 0..n
            invariant
                n == self.sessions.len(),
                forall|j: int| #![trigger self@.sessions[j]] 0 <= j < i ==> self@.sessions[j].id != id@,
        {
            if self.sessions[i].id == *id {
                return Some(i);
            }
        }
        None
    }

    pub fn find_session_by_claim(&self, jti: &String, sub: &String) -> (r: Option<usize>)
        ensures
            match r {
                Some(i) => i < self@.sessions.len() && self@.sessions[i as int].id == jti@
                    && self@.sessions[i as int].user_id == sub@,
                None => !self@.has_session_claim(jti@, sub@),
            },
    {
        let n = self.sessions.len();
        for i in 0..n
            invariant
                n == self.sessions.len(),
                forall|j: int|
                    #![trigger self@.sessions[j]]
                    0 <= j < i ==> !(self@.sessions[j].id == jti@ && self@.sessions[j].user_id
                        == sub@),
        {
            if self.sessions[i].id == *jti && self.sessions[i].user_id == *sub {
                return Some(i);
            }
        }
        None
    }

    pub fn find_invite_by_id(&self, id: &String) -> (r: Option<usize>)
        ensures
            match r {
                Some(i) => i < self@.invites.len() && self@.invites[i as int].id == id@,
                None => !self@.has_invite_id(id@),
            },
    {
        let n = self.invites.len();
        for i in 0..n
            invariant
                n == self.invites.len(),
                forall|j: int| #![trigger self@.invites[j]] 0 <= j < i ==> self@.invites[j].id != id@,
        {
            if self.invites[i].id == *id {
                return Some(i);
            }
        }
        None
    }

    pub fn find_tab_by_id(&self, id: &String) -> (r: Option<usize>)
        ensures
            match r {
                Some(i) => i < self@.tabs.len() && self@.tabs[i as int].id == id@,
                None => !self@.has_tab_id(id@),
            },
    {
        let n = self.tabs.len();
        for i in 0..n
            invariant
                n == self.tabs.len(),
                forall|j: int| #![trigger self@.tabs[j]] 0 <= j < i ==> self@.tabs[j].id != id@,
        {
            if self.tabs[i].id == *id {
                return Some(i);
            }
        }
        None
    }

    pub fn find_tab_for(&self, id: &String, user_id: &String) -> (r: Option<usize>)
        ensures
            match r {
                Some(i) => i < self@.tabs.len() && self@.tabs[i as int].id == id@
                    && self@.tabs[i as int].user_id == user_id@,
                None => !self@.has_tab_for(id@, user_id@),
            },
    {
        let n = self.tabs.len();
        for i in 0..n
            invariant
                n == self.tabs.len(),
                forall|j: int|
                    #![trigger self@.tabs[j]]
                    0 <= j < i ==> !(self@.tabs[j].id == id@ && self@.tabs[j].user_id == user_id@),
        {
            if self.tabs[i].id == *id && self.tabs[i].user_id == *user_id {
                return Some(i);
            }
        }
        None
    }

    pub fn find_tag_by_id(&self, id: &String) -> (r: Option<usize>)
        ensures
            match r {
                Some(i) => i < self@.tags.len() && self@.tags[i as int].id == id@,
                None => !self@.has_tag_id(id@),
            },
    {
        let n = self.tags.len();
        for i in 0..n
            invariant
                n == self.tags.len(),
                forall|j: int| #![trigger self@.tags[j]] 0 <= j < i ==> self@.tags[j].id != id@,
        {
            if self.tags[i].id == *id {
                return Some(i);
            }
        }
        None
    }

    pub fn find_tag_for(&self, id: &String, user_id: &String) -> (r: Option<usize>)
        ensures
            match r {
                Some(i) => i < self@.tags.len() && self@.tags[i as int].id == id@
                    && self@.tags[i as int].user_id == user_id@,
                None => !self@.has_tag_for(id@, user_id@),
            },
    {
        let n = self.tags.len();
        for i in 0..n
            invariant
                n == self.tags.len(),
                forall|j: int|
                    #![trigger self@.tags[j]]
                    0 <= j < i ==> !(self@.tags[j].id == id@ && self@.tags[j].user_id == user_id@),
        {
            if self.tags[i].id == *id && self.tags[i].user_id == *user_id {
                return Some(i);
            }
        }
        None
    }

    pub fn find_tab_tag(&self, tab_id: &String, tag_id: &String) -> (r: Option<usize>)
        ensures
            match r {
                Some(i) => i < self@.tab_tags.len() && self@.tab_tags[i as int].tab_id == tab_id@
                    && self@.tab_tags[i as int].tag_id == tag_id@,
                None => !self@.has_tab_tag(tab_id@, tag_id@),
            },
    {
        let n = self.tab_tags.len();
        for i in 0..n
            invariant
                n == self.tab_tags.len(),
                forall|j: int|
                    #![trigger self@.tab_tags[j]]
                    0 <= j < i ==> !(self@.tab_tags[j].tab_id == tab_id@ && self@.tab_tags[j].tag_id
                        == tag_id@),
        {
            if self.tab_tags[i].tab_id == *tab_id && self.tab_tags[i].tag_id == *tag_id {
                return Some(i);
            }
        }
        None
    }
}

} // verus!
