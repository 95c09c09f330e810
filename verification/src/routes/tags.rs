use crate::db::tags::{
    attach_tag, get_user_tags, get_user_tags_fuzzy, new_tag, spec_attach_tag, spec_get_user_tags,
    spec_get_user_tags_fuzzy, spec_new_tag,
};
use crate::models::tab::{AttachTagRequest, TagAttachedResponse, TagIdTripleV};
use crate::models::tag::{MatchedTags, MatchedTagsV, NewTag, NewTagV, Tag, TagV};
use crate::store::{Store, StoreV};
use crate::types::{
    res_v, AppError, AppErrorV, PaginatedResult, PaginatedResultV, PaginationRequest,
};
use vstd::prelude::*;

verus! {

/// Creating a tag demands that the body names the session's own user.
pub open spec fn spec_create_tag(s: StoreV, session_user: Seq<char>, payload: NewTagV) -> (StoreV, Result<
    TagV,
    AppErrorV,
>) {
    if payload.user_id != session_user {
        (s, Err(AppErrorV::WrongCredentials))
    } else {
        spec_new_tag(s, payload)
    }
}

pub fn create(store: &mut Store, session_user_id: &String, payload: NewTag) -> (r: Result<
    Tag,
    AppError,
>)
    requires
        old(store)@.wf(),
        old(store)@.next_id < u64::MAX,
    ensures
        final(store)@.wf(),
        ({
            let (s2, res) = spec_create_tag(old(store)@, session_user_id@, payload@);
            final(store)@ == s2 && res_v(r) == res
        }),
{
    if !(payload.user_id == *session_user_id) {
        return Err(AppError::WrongCredentials);
    }
    new_tag(store, payload)
}

/// Attaching via the route checks first that the path and the body name the
/// same tab, then that the body speaks for the session's user; only then the
/// double ownership check of the attach operation runs.
pub open spec fn spec_attach(
    s: StoreV,
    session_user: Seq<char>,
    path_tab_id: Seq<char>,
    payload: TagIdTripleV,
) -> (StoreV, Result<TagIdTripleV, AppErrorV>) {
    if path_tab_id != payload.tab_id {
        (s, Err(AppErrorV::BadRequest))
    } else if session_user != payload.user_id {
        (s, Err(AppErrorV::WrongCredentials))
    } else {
        spec_attach_tag(s, payload)
    }
}

pub fn attach(
    store: &mut Store,
    session_user_id: &String,
    path_tab_id: &String,
    payload: AttachTagRequest,
) -> (r: Result<TagAttachedResponse, AppError>)
    requires
        old(store)@.wf(),
    ensures
        final(store)@.wf(),
        ({
            let (s2, res) = spec_attach(old(store)@, session_user_id@, path_tab_id@, payload@);
            final(store)@ == s2 && res_v(r) == res
        }),
{
    if !(*path_tab_id == payload.tab_id) {
        return Err(AppError::BadRequest);
    }
    if !(*session_user_id == payload.user_id) {
        return Err(AppError::WrongCredentials);
    }
    attach_tag(store, payload)
}

/// The tag listing route rejects a path that names another user before it
/// reads anything.
pub open spec fn spec_user_tags(
    s: StoreV,
    session_user: Seq<char>,
    path_user_id: Seq<char>,
    pr: PaginationRequest,
) -> Result<PaginatedResultV<TagV>, AppErrorV> {
    if path_user_id != session_user {
        Err(AppErrorV::WrongCredentials)
    } else {
        spec_get_user_tags(s, session_user, pr)
    }
}

pub fn user_tags(
    store: &Store,
    session_user_id: String,
    path_user_id: &String,
    pr: PaginationRequest,
) -> (r: Result<PaginatedResult<Tag>, AppError>)
    requires
        store@.wf(),
    ensures
        res_v(r) == spec_user_tags(store@, session_user_id@, path_user_id@, pr),
{
    if !(*path_user_id == session_user_id) {
        return Err(AppError::WrongCredentials);
    }
    get_user_tags(store, session_user_id, pr)
}

/// The fuzzy search route: the path must name the session's user, and the
/// fragment must be 3 to 20 characters long, else the request is refused
/// before the store is read.
pub open spec fn spec_user_tags_fuzzy(
    s: StoreV,
    session_user: Seq<char>,
    path_user_id: Seq<char>,
    fragment: Seq<char>,
) -> Result<MatchedTagsV, AppErrorV> {
    if path_user_id != session_user {
        Err(AppErrorV::WrongCredentials)
    } else if fragment.len() < 3 || fragment.len() > 20 {
        Err(AppErrorV::BadRequest)
    } else {
        match spec_get_user_tags_fuzzy(s, session_user, fragment) {
            Err(e) => Err(e),
            Ok(matches) => Ok(MatchedTagsV { matches }),
        }
    }
}

pub fn user_tags_fuzzy(
    store: &Store,
    session_user_id: String,
    path_user_id: &String,
    fragment: String,
) -> (r: Result<MatchedTags, AppError>)
    requires
        store@.wf(),
    ensures
        res_v(r) == spec_user_tags_fuzzy(store@, session_user_id@, path_user_id@, fragment@),
{
    if !(*path_user_id == session_user_id) {
        return Err(AppError::WrongCredentials);
    }
    let flen = fragment.as_str().unicode_len();
    if flen < 3 || flen > 20 {
        return Err(AppError::BadRequest);
    }
    match get_user_tags_fuzzy(store, session_user_id, fragment) {
        Err(e) => Err(e),
        Ok(matches) => Ok(MatchedTags::new(matches)),
    }
}

} // verus!
