use crate::db::tabs::{
    attach_rows, created_tags, delete_tab as db_delete_tab, new_tab, requested_existing_ids,
    requested_new, spec_delete_tab, spec_new_tab,
};
use crate::ids::{dec_digits, u64_to_string};
use crate::models::tab::{
    NewTab, NewTabV, NewTabWithTags, NewTabWithTagsV, Tab, TabTag, TabTagV, TabV, TabWithTags,
    TabWithTagsV,
};
use crate::models::tag::{MaybeNewTag, MaybeNewTagV, Tag, TagV};
use crate::store::{Store, StoreV};
use crate::types::{res_v, AppError, AppErrorV};
use vstd::assert_seqs_equal;
use vstd::prelude::*;

verus! {

/// Creating a tab demands that the body names the session's own user.
pub open spec fn spec_create_tab(s: StoreV, session_user: Seq<char>, payload: NewTabV) -> (StoreV, Result<
    TabV,
    AppErrorV,
>) {
    if payload.user_id != session_user {
        (s, Err(AppErrorV::WrongCredentials))
    } else {
        spec_new_tab(s, payload)
    }
}

pub fn create(store: &mut Store, session_user_id: &String, payload: NewTab) -> (r: Result<
    Tab,
    AppError,
>)
    requires
        old(store)@.wf(),
        old(store)@.next_id < u64::MAX,
    ensures
        final(store)@.wf(),
        ({
            let (s2, res) = spec_create_tab(old(store)@, session_user_id@, payload@);
            final(store)@ == s2 && res_v(r) == res
        }),
{
    if !(payload.user_id == *session_user_id) {
        return Err(AppError::WrongCredentials);
    }
    new_tab(store, payload)
}

/// Deleting through the route answers `NotFound` when the ownership-scoped
/// filter matched nothing — a foreign tab and an absent tab are
/// indistinguishable.
pub open spec fn spec_delete_tab_route(s: StoreV, session_user: Seq<char>, tab_id: Seq<char>) -> (
    StoreV,
    Result<(), AppErrorV>,
) {
    let (s2, n) = spec_delete_tab(s, session_user, tab_id);
    if n == 0 {
        (s2, Err(AppErrorV::NotFound))
    } else {
        (s2, Ok(()))
    }
}

pub fn delete_tab(store: &mut Store, session_user_id: String, tab_id: String) -> (r: Result<
    (),
    AppError,
>)
    requires
        old(store)@.wf(),
    ensures
        final(store)@.wf(),
        ({
            let (s2, res) = spec_delete_tab_route(old(store)@, session_user_id@, tab_id@);
            final(store)@ == s2 && (match (r, res) {
                (Ok(_), Ok(_)) => true,
                (Err(e), Err(ev)) => e@ == ev,
                _ => false,
            })
        }),
{
    let n = match db_delete_tab(store, session_user_id, tab_id) {
        Err(e) => {
            return Err(e);
        },
        Ok(n) => n,
    };
    if n == 0 {
        return Err(AppError::NotFound);
    }
    Ok(())
}


/// The tag rows the reply lists for the referenced existing tags: id and text
/// from the request, owner from the session.
pub open spec fn requested_existing_as_tags(user_id: Seq<char>, ts: Seq<MaybeNewTagV>) -> Seq<TagV>
    decreases ts.len(),
{
    if ts.len() == 0 {
        Seq::empty()
    } else {
        let rest = requested_existing_as_tags(user_id, ts.drop_last());
        match ts.last().id {
            Some(id) => rest.push(TagV { id: id, user_id: user_id, tag: ts.last().tag }),
            None => rest,
        }
    }
}

proof fn lemma_requested_existing_as_tags_push(user_id: Seq<char>, ts: Seq<MaybeNewTagV>, t: MaybeNewTagV)
    ensures
        requested_existing_as_tags(user_id, ts.push(t)) == match t.id {
            Some(id) => requested_existing_as_tags(user_id, ts).push(
                TagV { id: id, user_id: user_id, tag: t.tag },
            ),
            None => requested_existing_as_tags(user_id, ts),
        },
{
    assert(ts.push(t).drop_last() =~= ts);
    assert(ts.push(t).last() == t);
}

/// Creating a tab together with a tag set: the tab is owned by the session's
/// user whatever the body says; tags without an id are created, the rest are
/// referenced by id, and all of them are attached to the fresh tab. The
/// checks on the tag set — every referenced id exists, every owner of a tag
/// to create exists, no id referenced twice — run before any tag is written,
/// but after the tab insert: when they fail, the tab itself remains, as the
/// steps are separate statements.
pub open spec fn spec_create_with_tags(
    s: StoreV,
    session_user: Seq<char>,
    payload: NewTabWithTagsV,
) -> (StoreV, Result<TabWithTagsV, AppErrorV>) {
    let (s1, r1) = spec_new_tab(
        s,
        NewTabV { user_id: session_user, url: payload.tab.url, notes: payload.tab.notes },
    );
    match r1 {
        Err(e) => (s1, Err(e)),
        Ok(tab) => {
            let ex = requested_existing_ids(payload.tags);
            let news = requested_new(payload.tags);
            if !((forall|a: int| 0 <= a < ex.len() ==> s1.has_tag_id(#[trigger] ex[a])) && (forall|
                a: int,
                b: int,
            |
                #![trigger ex[a], ex[b]]
                0 <= a < b < ex.len() ==> ex[a] != ex[b]) && (forall|a: int|
                #![trigger news[a]]
                0 <= a < news.len() ==> s1.has_user_id(news[a].user_id))) {
                (s1, Err(AppErrorV::DBError))
            } else {
                let created = created_tags(s1.next_id, news);
                let ids = ex + Seq::new(created.len(), |a: int| created[a].id);
                let s3 = StoreV {
                    tags: s1.tags + created,
                    tab_tags: s1.tab_tags + attach_rows(tab.id, ids),
                    next_id: s1.next_id + news.len(),
                    ..s1
                };
                (
                    s3,
                    Ok(
                        TabWithTagsV {
                            tab,
                            tags: requested_existing_as_tags(session_user, payload.tags) + created,
                        },
                    ),
                )
            }
        },
    }
}

/// Attaching a fresh id set to a tab that no association row references yet
/// keeps the store well-formed.
proof fn lemma_wf_create_attach(s2: StoreV, tab_id: Seq<char>, ids: Seq<Seq<char>>)
    requires
        s2.wf(),
        s2.has_tab_id(tab_id),
        forall|a: int| 0 <= a < ids.len() ==> s2.has_tag_id(#[trigger] ids[a]),
        forall|a: int, b: int|
            #![trigger ids[a], ids[b]]
            0 <= a < b < ids.len() ==> ids[a] != ids[b],
        forall|a: int|
            #![trigger s2.tab_tags[a]]
            0 <= a < s2.tab_tags.len() ==> s2.tab_tags[a].tab_id != tab_id,
    ensures
        (StoreV { tab_tags: s2.tab_tags + attach_rows(tab_id, ids), ..s2 }).wf(),
{
    let fresh = attach_rows(tab_id, ids);
    let tts2 = s2.tab_tags + fresh;
    assert forall|a: int, b: int|
        #![trigger tts2[a], tts2[b]]
        0 <= a < b < tts2.len() implies !(tts2[a].tab_id == tts2[b].tab_id && tts2[a].tag_id
        == tts2[b].tag_id) by {
        let n0 = s2.tab_tags.len() as int;
        if a < n0 && b < n0 {
            assert(tts2[a] == s2.tab_tags[a] && tts2[b] == s2.tab_tags[b]);
        } else if a < n0 {
            assert(tts2[a] == s2.tab_tags[a]);
            assert(tts2[b] == fresh[b - n0]);
        } else {
            assert(tts2[a] == fresh[a - n0] && tts2[b] == fresh[b - n0]);
            assert(ids[a - n0] != ids[b - n0]);
        }
    }
    assert forall|a: int|
        #![trigger tts2[a]]
        0 <= a < tts2.len() implies s2.has_tab_id(tts2[a].tab_id) && s2.has_tag_id(
        tts2[a].tag_id,
    ) by {
        let n0 = s2.tab_tags.len() as int;
        if a < n0 {
            assert(tts2[a] == s2.tab_tags[a]);
        } else {
            assert(tts2[a] == fresh[a - n0]);
            assert(ids[a - n0] == tts2[a].tag_id);
        }
    }
    crate::store::lemma_wf_replace_tab_tags(s2, tts2);
}

pub fn create_with_tags(store: &mut Store, session_user_id: &String, payload: NewTabWithTags) -> (r:
    Result<TabWithTags, AppError>)
    requires
        old(store)@.wf(),
        old(store)@.next_id + 1 + payload@.tags.len() <= u64::MAX,
    ensures
        final(store)@.wf(),
        ({
            let (s2, res) = spec_create_with_tags(old(store)@, session_user_id@, payload@);
            final(store)@ == s2 && res_v(r) == res
        }),
{
    let ghost s0 = old(store)@;
    let data = NewTab {
        user_id: session_user_id.clone(),
        url: payload.tab.url,
        notes: payload.tab.notes,
    };
    let tab = match new_tab(store, data) {
        Err(e) => {
            return Err(e);
        },
        Ok(t) => t,
    };
    let ghost s1 = store@;
    // partition the requested tag set; the reply's rows for referenced tags
    // are built from the request, owned by the session's user
    let mut exist_ids: Vec<String> = Vec::new();
    let mut news: Vec<MaybeNewTag> = Vec::new();
    let mut tags_ret: Vec<Tag> = Vec::new();
    let n = payload.tags.len();
    proof {
        assert(payload.tags.deep_view().subrange(0, 0) =~= Seq::<MaybeNewTagV>::empty());
        assert(exist_ids.deep_view() =~= Seq::<Seq<char>>::empty());
        assert(news.deep_view() =~= Seq::<MaybeNewTagV>::empty());
        assert(tags_ret.deep_view() =~= Seq::<TagV>::empty());
    }
    for i in 0..n
        invariant
            n == payload.tags.len(),
            exist_ids.deep_view() == requested_existing_ids(
                payload.tags.deep_view().subrange(0, i as int),
            ),
            news.deep_view() == requested_new(payload.tags.deep_view().subrange(0, i as int)),
            tags_ret.deep_view() == requested_existing_as_tags(
                session_user_id@,
                payload.tags.deep_view().subrange(0, i as int),
            ),
    {
        proof {
            assert(payload.tags.deep_view().subrange(0, i as int + 1)
                =~= payload.tags.deep_view().subrange(0, i as int).push(
                payload.tags.deep_view()[i as int],
            ));
            crate::db::tabs::lemma_requested_existing_push(
                payload.tags.deep_view().subrange(0, i as int),
                payload.tags.deep_view()[i as int],
            );
            crate::db::tabs::lemma_requested_new_push(
                payload.tags.deep_view().subrange(0, i as int),
                payload.tags.deep_view()[i as int],
            );
            lemma_requested_existing_as_tags_push(
                session_user_id@,
                payload.tags.deep_view().subrange(0, i as int),
                payload.tags.deep_view()[i as int],
            );
        }
        match &payload.tags[i].id {
            Some(id) => {
                exist_ids.push(id.clone());
                tags_ret.push(
                    Tag {
                        id: id.clone(),
                        user_id: session_user_id.clone(),
                        tag: payload.tags[i].tag.clone(),
                    },
                );
                proof {
                    assert(exist_ids.deep_view() =~~= requested_existing_ids(
                        payload.tags.deep_view().subrange(0, i as int + 1),
                    ));
                    assert(tags_ret.deep_view() =~~= requested_existing_as_tags(
                        session_user_id@,
                        payload.tags.deep_view().subrange(0, i as int + 1),
                    ));
                }
            },
            None => {
                news.push(payload.tags[i].clone());
                proof {
                    assert(news.deep_view() =~~= requested_new(
                        payload.tags.deep_view().subrange(0, i as int + 1),
                    ));
                }
            },
        }
    }
    proof {
        assert(payload.tags.deep_view().subrange(0, n as int) =~= payload.tags.deep_view());
    }
    let ghost ex = requested_existing_ids(payload.tags.deep_view());
    let ghost newsv = requested_new(payload.tags.deep_view());
    // the checks the storage layer makes before any tag is written
    let ne = exist_ids.len();
    for a in 0..ne
        invariant
            ne == exist_ids.len(),
            ex == requested_existing_ids(payload.tags.deep_view()),
            exist_ids.deep_view() == ex,
            spec_new_tab(
                old(store)@,
                NewTabV { user_id: session_user_id@, url: payload@.tab.url, notes: payload@.tab.notes },
            ) == (s1, Ok::<TabV, AppErrorV>(tab@)),
            store@ == s1,
            s1.wf(),
            forall|k: int| 0 <= k < a ==> store@.has_tag_id(#[trigger] ex[k]),
            forall|k: int, l: int| #![trigger ex[k], ex[l]] 0 <= k < l < a ==> ex[k] != ex[l],
    {
        if store.find_tag_by_id(&exist_ids[a]).is_none() {
            proof {
                assert(exist_ids.deep_view()[a as int] == ex[a as int]);
                assert(!store@.has_tag_id(ex[a as int]));
            }
            return Err(AppError::DBError);
        }
        for b in 0..a
            invariant
                ne == exist_ids.len(),
                a < ne,
                ex == requested_existing_ids(payload.tags.deep_view()),
                exist_ids.deep_view() == ex,
                spec_new_tab(
                    old(store)@,
                    NewTabV { user_id: session_user_id@, url: payload@.tab.url, notes: payload@.tab.notes },
                ) == (s1, Ok::<TabV, AppErrorV>(tab@)),
                store@ == s1,
                s1.wf(),
                forall|l: int| 0 <= l < b ==> ex[l] != ex[a as int],
        {
            if exist_ids[b] == exist_ids[a] {
                proof {
                    assert(ex[b as int] == ex[a as int]);
                }
                return Err(AppError::DBError);
            }
        }
    }
    let nn = news.len();
    for a in 0..nn
        invariant
            nn == news.len(),
            newsv == requested_new(payload.tags.deep_view()),
            news.deep_view() == newsv,
            spec_new_tab(
                old(store)@,
                NewTabV { user_id: session_user_id@, url: payload@.tab.url, notes: payload@.tab.notes },
            ) == (s1, Ok::<TabV, AppErrorV>(tab@)),
            store@ == s1,
            s1.wf(),
            forall|k: int| #![trigger newsv[k]] 0 <= k < a ==> store@.has_user_id(newsv[k].user_id),
    {
        if store.find_user_by_id(&news[a].user_id).is_none() {
            proof {
                assert(news.deep_view()[a as int] == newsv[a as int]);
                assert(!store@.has_user_id(newsv[a as int].user_id));
            }
            return Err(AppError::DBError);
        }
    }
    proof {
        crate::db::tabs::lemma_requested_new_len(payload.tags.deep_view());
    }
    // create the new tags and extend the reply's rows with them
    let mut created_ids: Vec<String> = Vec::new();
    proof {
        assert(store@.tags =~= s1.tags + created_tags(s1.next_id, newsv).subrange(0, 0));
        assert(created_ids.deep_view() =~= Seq::new(
            0,
            |k: int| dec_digits((s1.next_id + k) as nat),
        ));
        assert(tags_ret.deep_view() =~= requested_existing_as_tags(
            session_user_id@,
            payload.tags.deep_view(),
        ) + created_tags(s1.next_id, newsv).subrange(0, 0));
    }
    for a in 0..nn
        invariant
            nn == news.len(),
            news.deep_view() == newsv,
            store@.wf(),
            store@.tabs == s1.tabs,
            store@.users == s1.users,
            store@.sessions == s1.sessions,
            store@.invites == s1.invites,
            store@.tab_tags == s1.tab_tags,
            store@.next_id == s1.next_id + a,
            s1.next_id + nn <= u64::MAX,
            store@.tags == s1.tags + created_tags(s1.next_id, newsv).subrange(0, a as int),
            created_ids.deep_view() == Seq::new(
                a as nat,
                |k: int| dec_digits((s1.next_id + k) as nat),
            ),
            tags_ret.deep_view() == requested_existing_as_tags(
                session_user_id@,
                payload.tags.deep_view(),
            ) + created_tags(s1.next_id, newsv).subrange(0, a as int),
            forall|k: int| #![trigger newsv[k]] 0 <= k < nn ==> s1.has_user_id(newsv[k].user_id),
    {
        let ghost scur = store@;
        let ghost prevc = created_ids.deep_view();
        let ghost prevt = tags_ret.deep_view();
        let id = u64_to_string(store.next_id);
        created_ids.push(id.clone());
        proof {
            assert(created_ids.deep_view().len() == prevc.len() + 1);
            assert(forall|m: int|
                0 <= m < prevc.len() ==> created_ids.deep_view()[m] == #[trigger] prevc[m]);
            assert(created_ids.deep_view()[prevc.len() as int] == id@);
        }
        store.next_id = store.next_id + 1;
        let row = Tag { id, user_id: news[a].user_id.clone(), tag: news[a].tag.clone() };
        let out = row.clone();
        proof {
            crate::store::lemma_has_user_id_frame(s1, scur, newsv[a as int].user_id);
            crate::store::lemma_wf_insert_tag(scur, row@);
        }
        let ghost rowv = row@;
        store.tags.push(row);
        tags_ret.push(out);
        proof {
            assert(store@.tags =~= StoreV { tags: scur.tags.push(rowv), ..scur }.tags);
            assert(store@ == StoreV {
                tags: scur.tags.push(rowv),
                next_id: scur.next_id + 1,
                ..scur
            });
            assert(tags_ret.deep_view().len() == prevt.len() + 1);
            assert(forall|m: int|
                0 <= m < prevt.len() ==> tags_ret.deep_view()[m] == #[trigger] prevt[m]);
            assert(tags_ret.deep_view()[prevt.len() as int] == rowv);
            assert(rowv == created_tags(s1.next_id, newsv)[a as int]);
            assert_seqs_equal!(
                store@.tags == s1.tags + created_tags(s1.next_id, newsv).subrange(0, a as int + 1),
                m => {
                    if m < scur.tags.len() {
                        assert(store@.tags[m] == scur.tags[m]);
                    }
                }
            );
            assert_seqs_equal!(
                created_ids.deep_view() == Seq::new(
                    a as nat + 1,
                    |k: int| dec_digits((s1.next_id + k) as nat),
                ),
                m => {
                    if m < prevc.len() {
                        assert(created_ids.deep_view()[m] == prevc[m]);
                    } else {
                        assert(created_ids.deep_view()[m] == id@);
                    }
                }
            );
            assert_seqs_equal!(
                tags_ret.deep_view() == requested_existing_as_tags(
                    session_user_id@,
                    payload.tags.deep_view(),
                ) + created_tags(s1.next_id, newsv).subrange(0, a as int + 1),
                m => {
                    if m < prevt.len() {
                        assert(tags_ret.deep_view()[m] == prevt[m]);
                    } else {
                        assert(tags_ret.deep_view()[m] == rowv);
                    }
                }
            );
        }
    }
    let ghost created = created_tags(s1.next_id, newsv);
    let ghost s2 = StoreV { tags: s1.tags + created, next_id: s1.next_id + nn as nat, ..s1 };
    proof {
        assert(created.subrange(0, nn as int) =~= created);
        assert(store@ == s2);
    }
    // attach the whole requested set to the fresh tab
    let ghost ids = ex + Seq::new(created.len(), |a: int| created[a].id);
    let mut tts: Vec<TabTag> = Vec::new();
    let ntt = store.tab_tags.len();
    for i in 0..ntt
        invariant
            ntt == store.tab_tags.len(),
            tts.deep_view() == store@.tab_tags.subrange(0, i as int),
    {
        let ghost prev = tts.deep_view();
        tts.push(store.tab_tags[i].clone());
        proof {
            assert(tts.deep_view().len() == prev.len() + 1);
            assert(forall|m: int| 0 <= m < prev.len() ==> tts.deep_view()[m] == #[trigger] prev[m]);
            assert(tts.deep_view() =~~= store@.tab_tags.subrange(0, i as int + 1));
        }
    }
    proof {
        assert(store@.tab_tags.subrange(0, ntt as int) =~= s1.tab_tags);
        assert(tts.deep_view() =~= s1.tab_tags + attach_rows(tab@.id, ids.subrange(0, 0)));
    }
    for a in 0..ne
        invariant
            ne == exist_ids.len(),
            exist_ids.deep_view() == ex,
            ne <= ids.len(),
            forall|k: int| 0 <= k < ne ==> ids[k] == #[trigger] ex[k],
            tts.deep_view() == s1.tab_tags + attach_rows(tab@.id, ids.subrange(0, a as int)),
        decreases ne - a,
    {
        let ghost prev = tts.deep_view();
        tts.push(TabTag { tab_id: tab.id.clone(), tag_id: exist_ids[a].clone() });
        proof {
            assert(tts.deep_view().len() == prev.len() + 1);
            assert(forall|m: int| 0 <= m < prev.len() ==> tts.deep_view()[m] == #[trigger] prev[m]);
            assert(tts.deep_view()[prev.len() as int] == TabTagV {
                tab_id: tab@.id,
                tag_id: ex[a as int],
            });
            assert_seqs_equal!(
                tts.deep_view() == s1.tab_tags + attach_rows(tab@.id, ids.subrange(0, a as int + 1)),
                m => {
                    if m < prev.len() {
                        assert(tts.deep_view()[m] == prev[m]);
                    }
                }
            );
        }
    }
    let nc = created_ids.len();
    for a in 0..nc
        invariant
            nc == created_ids.len(),
            nc == nn,
            nn == news.len(),
            news.deep_view() == newsv,
            created == created_tags(s1.next_id, newsv),
            ids == ex + Seq::new(created.len(), |q: int| created[q].id),
            ne == ex.len(),
            created_ids.deep_view() == Seq::new(
                nn as nat,
                |k: int| dec_digits((s1.next_id + k) as nat),
            ),
            tts.deep_view() == s1.tab_tags + attach_rows(tab@.id, ids.subrange(0, ne as int + a)),
        decreases nc - a,
    {
        let ghost prev = tts.deep_view();
        tts.push(TabTag { tab_id: tab.id.clone(), tag_id: created_ids[a].clone() });
        proof {
            assert(tts.deep_view().len() == prev.len() + 1);
            assert(forall|m: int| 0 <= m < prev.len() ==> tts.deep_view()[m] == #[trigger] prev[m]);
            assert(created[a as int].id == dec_digits((s1.next_id + a) as nat));
            assert(ids[ne as int + a] == created[a as int].id);
            assert(created_ids.deep_view()[a as int] == dec_digits((s1.next_id + a) as nat));
            assert(tts.deep_view()[prev.len() as int] == TabTagV {
                tab_id: tab@.id,
                tag_id: ids[ne as int + a],
            });
            assert_seqs_equal!(
                tts.deep_view() == s1.tab_tags + attach_rows(tab@.id, ids.subrange(0, ne as int + a + 1)),
                m => {
                    if m < prev.len() {
                        assert(tts.deep_view()[m] == prev[m]);
                    }
                }
            );
        }
    }
    proof {
        assert(ids.subrange(0, ids.len() as int) =~= ids);
    }
    // the id set is pairwise distinct: referenced ids were checked, created
    // ids are fresh, and a referenced id exists in the old store while a
    // created one does not
    proof {
        lemma_create_ids_distinct(s1, ex, newsv);
        assert forall|k: int| 0 <= k < ids.len() implies s2.has_tag_id(#[trigger] ids[k]) by {
            if k < ne {
                let w = choose|w: int| 0 <= w < s1.tags.len() && s1.tags[w].id == ids[k];
                assert(s2.tags[w] == s1.tags[w]);
            } else {
                assert(s2.tags[s1.tags.len() + (k - ne)] == created[k - ne]);
            }
        }
        assert(s2.has_tab_id(tab@.id)) by {
            let ti = s1.tab_idx_by_id(tab@.id);
            assert(s1.tabs[s1.tabs.len() - 1].id == tab@.id);
            assert(s2.tabs[s1.tabs.len() - 1].id == tab@.id);
        }
        assert forall|a: int|
            #![trigger s2.tab_tags[a]]
            0 <= a < s2.tab_tags.len() implies s2.tab_tags[a].tab_id != tab@.id by {
            assert(s0.has_tab_id(s0.tab_tags[a].tab_id));
            let w = choose|w: int| 0 <= w < s0.tabs.len() && s0.tabs[w].id == s0.tab_tags[a].tab_id;
            assert(s0.id_minted(s0.tabs[w].id));
            crate::store::lemma_minted_ne_next(s0);
        }
        lemma_wf_create_attach(s2, tab@.id, ids);
    }
    store.tab_tags = tts;
    proof {
        let (sf, res) = spec_create_with_tags(s0, session_user_id@, payload@);
        assert(store@.tab_tags =~= sf.tab_tags);
        assert(store@.tags =~= sf.tags);
        assert(store@ == sf);
        assert(tags_ret.deep_view() =~= res->Ok_0.tags);
    }
    Ok(TabWithTags { tab, tags: tags_ret })
}

/// Referenced ids and freshly created ids never collide: a referenced id
/// names a tag the store already holds, so it was minted below the counter.
proof fn lemma_create_ids_distinct(s1: StoreV, ex: Seq<Seq<char>>, newsv: Seq<MaybeNewTagV>)
    requires
        s1.wf(),
        forall|a: int| 0 <= a < ex.len() ==> s1.has_tag_id(#[trigger] ex[a]),
        forall|a: int, b: int|
            #![trigger ex[a], ex[b]]
            0 <= a < b < ex.len() ==> ex[a] != ex[b],
    ensures
        ({
            let created = created_tags(s1.next_id, newsv);
            let ids = ex + Seq::new(created.len(), |q: int| created[q].id);
            forall|a: int, b: int|
                #![trigger ids[a], ids[b]]
                0 <= a < b < ids.len() ==> ids[a] != ids[b]
        }),
{
    let created = created_tags(s1.next_id, newsv);
    let ids = ex + Seq::new(created.len(), |q: int| created[q].id);
    assert forall|a: int, b: int|
        #![trigger ids[a], ids[b]]
        0 <= a < b < ids.len() implies ids[a] != ids[b] by {
        if a < ex.len() && b < ex.len() {
            assert(ex[a] != ex[b]);
        } else if a < ex.len() {
            let w = choose|w: int| 0 <= w < s1.tags.len() && s1.tags[w].id == ids[a];
            assert(s1.id_minted(s1.tags[w].id));
            let k = choose|k: nat| k < s1.next_id && s1.tags[w].id == #[trigger] dec_digits(k);
            assert(ids[b] == dec_digits((s1.next_id + (b - ex.len())) as nat));
            if ids[a] == ids[b] {
                crate::ids::lemma_dec_digits_injective(k, (s1.next_id + (b - ex.len())) as nat);
            }
        } else {
            assert(ids[a] == dec_digits((s1.next_id + (a - ex.len())) as nat));
            assert(ids[b] == dec_digits((s1.next_id + (b - ex.len())) as nat));
            if ids[a] == ids[b] {
                crate::ids::lemma_dec_digits_injective(
                    (s1.next_id + (a - ex.len())) as nat,
                    (s1.next_id + (b - ex.len())) as nat,
                );
            }
        }
    }
}

} // verus!
