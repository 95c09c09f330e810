use crate::ids::{dec_digits, u64_to_string};
use crate::db::tags::{sort_tags, sort_tags_exec};
use crate::models::tab::{
    NewTab, NewTabV, Tab, TabTag, TabTagV, TabV, TabWithTags, TabWithTagsV, UpdateTabWithTags,
    UpdateTabWithTagsV,
};
use crate::models::tag::{MaybeNewTag, MaybeNewTagV};
use crate::models::tag::{Tag, TagV};
use crate::store::{
    lemma_wf_insert_tab, lemma_wf_remove_tab, lemma_wf_replace_tab_tags, Store, StoreV,
};
use crate::types::{
    has_more_calc, page_of, res_v, AppError, AppErrorV, PaginatedResult, PaginatedResultV,
    PaginationRequest,
};
use vstd::assert_seqs_equal;
use vstd::prelude::*;

verus! {

// ---- filters ----

/// The tabs one user owns, in insertion order — which is creation order, so
/// its reverse is newest-first.
pub open spec fn tabs_of_user(tabs: Seq<TabV>, user_id: Seq<char>) -> Seq<TabV>
    decreases tabs.len(),
{
    if tabs.len() == 0 {
        Seq::empty()
    } else {
        let rest = tabs_of_user(tabs.drop_last(), user_id);
        if tabs.last().user_id == user_id {
            rest.push(tabs.last())
        } else {
            rest
        }
    }
}

proof fn lemma_tabs_of_user_push(tabs: Seq<TabV>, t: TabV, user_id: Seq<char>)
    ensures
        tabs_of_user(tabs.push(t), user_id) == if t.user_id == user_id {
            tabs_of_user(tabs, user_id).push(t)
        } else {
            tabs_of_user(tabs, user_id)
        },
{
    assert(tabs.push(t).drop_last() =~= tabs);
    assert(tabs.push(t).last() == t);
}

/// The association rows that do not reference this tab.
pub open spec fn tab_tags_without_tab(tts: Seq<TabTagV>, tab_id: Seq<char>) -> Seq<TabTagV>
    decreases tts.len(),
{
    if tts.len() == 0 {
        Seq::empty()
    } else {
        let rest = tab_tags_without_tab(tts.drop_last(), tab_id);
        if tts.last().tab_id == tab_id {
            rest
        } else {
            rest.push(tts.last())
        }
    }
}

proof fn lemma_tab_tags_without_tab_push(tts: Seq<TabTagV>, t: TabTagV, tab_id: Seq<char>)
    ensures
        tab_tags_without_tab(tts.push(t), tab_id) == if t.tab_id == tab_id {
            tab_tags_without_tab(tts, tab_id)
        } else {
            tab_tags_without_tab(tts, tab_id).push(t)
        },
{
    assert(tts.push(t).drop_last() =~= tts);
    assert(tts.push(t).last() == t);
}

/// Every kept association is an old row that does not reference the tab, and
/// pairwise-distinct rows stay pairwise distinct.
pub proof fn lemma_tab_tags_without_tab_props(tts: Seq<TabTagV>, tab_id: Seq<char>)
    requires
        forall|a: int, b: int|
            #![trigger tts[a], tts[b]]
            0 <= a < b < tts.len() ==> !(tts[a].tab_id == tts[b].tab_id && tts[a].tag_id
                == tts[b].tag_id),
    ensures
        tab_tags_without_tab(tts, tab_id).len() <= tts.len(),
        forall|a: int|
            #![trigger tab_tags_without_tab(tts, tab_id)[a]]
            0 <= a < tab_tags_without_tab(tts, tab_id).len() ==> tab_tags_without_tab(
                tts,
                tab_id,
            )[a].tab_id != tab_id && exists|b: int|
                0 <= b < tts.len() && tab_tags_without_tab(tts, tab_id)[a] == #[trigger] tts[b],
        forall|a: int, b: int|
            #![trigger tab_tags_without_tab(tts, tab_id)[a], tab_tags_without_tab(tts, tab_id)[b]]
            0 <= a < b < tab_tags_without_tab(tts, tab_id).len() ==> !(tab_tags_without_tab(
                tts,
                tab_id,
            )[a].tab_id == tab_tags_without_tab(tts, tab_id)[b].tab_id && tab_tags_without_tab(
                tts,
                tab_id,
            )[a].tag_id == tab_tags_without_tab(tts, tab_id)[b].tag_id),
    decreases tts.len(),
{
    if tts.len() > 0 {
        assert forall|a: int, b: int|
            #![trigger tts.drop_last()[a], tts.drop_last()[b]]
            0 <= a < b < tts.drop_last().len() implies !(tts.drop_last()[a].tab_id
            == tts.drop_last()[b].tab_id && tts.drop_last()[a].tag_id == tts.drop_last()[
            b
        ].tag_id) by {
            assert(tts.drop_last()[a] == tts[a] && tts.drop_last()[b] == tts[b]);
        }
        lemma_tab_tags_without_tab_props(tts.drop_last(), tab_id);
        let out = tab_tags_without_tab(tts, tab_id);
        let rest = tab_tags_without_tab(tts.drop_last(), tab_id);
        assert forall|a: int|
            #![trigger out[a]]
            0 <= a < out.len() implies out[a].tab_id != tab_id && exists|b: int|
            0 <= b < tts.len() && out[a] == #[trigger] tts[b] by {
            if a < rest.len() {
                assert(out[a] == rest[a]);
                let b = choose|b: int|
                    0 <= b < tts.drop_last().len() && rest[a] == #[trigger] tts.drop_last()[b];
                assert(tts[b] == tts.drop_last()[b]);
            } else {
                assert(out[a] == tts.last());
                assert(tts[tts.len() - 1] == tts.last());
            }
        }
        assert forall|a: int, b: int|
            #![trigger out[a], out[b]]
            0 <= a < b < out.len() implies !(out[a].tab_id == out[b].tab_id && out[a].tag_id
            == out[b].tag_id) by {
            if b < rest.len() {
                assert(out[a] == rest[a] && out[b] == rest[b]);
            } else {
                assert(out[b] == tts.last());
                assert(out[a] == rest[a]);
                let c = choose|c: int|
                    0 <= c < tts.drop_last().len() && rest[a] == #[trigger] tts.drop_last()[c];
                assert(tts[c] == tts.drop_last()[c]);
                assert(tts[tts.len() - 1] == tts.last());
            }
        }
    }
}

/// Collects the association rows that survive the removal of one tab.
fn collect_tab_tags_without_tab(store: &Store, tab_id: &String) -> (r: Vec<TabTag>)
    ensures
        r.deep_view() == tab_tags_without_tab(store@.tab_tags, tab_id@),
{
    let mut out: Vec<TabTag> = Vec::new();
    let n = store.tab_tags.len();
    proof {
        assert(store@.tab_tags.subrange(0, 0) =~= Seq::<TabTagV>::empty());
        assert(out.deep_view() =~= Seq::<TabTagV>::empty());
    }
    for i in 0..n
        invariant
            n == store.tab_tags.len(),
            out.deep_view() == tab_tags_without_tab(
                store@.tab_tags.subrange(0, i as int),
                tab_id@,
            ),
    {
        proof {
            assert(store@.tab_tags.subrange(0, i as int + 1) =~= store@.tab_tags.subrange(
                0,
                i as int,
            ).push(store@.tab_tags[i as int]));
            lemma_tab_tags_without_tab_push(
                store@.tab_tags.subrange(0, i as int),
                store@.tab_tags[i as int],
                tab_id@,
            );
        }
        if !(store.tab_tags[i].tab_id == *tab_id) {
            out.push(store.tab_tags[i].clone());
        }
    }
    proof {
        assert(store@.tab_tags.subrange(0, n as int) =~= store@.tab_tags);
    }
    out
}

/// The tab rows that survive a per-user teardown: everyone else's tabs.
pub open spec fn tabs_without_user(tabs: Seq<TabV>, user_id: Seq<char>) -> Seq<TabV>
    decreases tabs.len(),
{
    if tabs.len() == 0 {
        Seq::empty()
    } else {
        let rest = tabs_without_user(tabs.drop_last(), user_id);
        if tabs.last().user_id == user_id {
            rest
        } else {
            rest.push(tabs.last())
        }
    }
}

proof fn lemma_tabs_without_user_push(tabs: Seq<TabV>, t: TabV, user_id: Seq<char>)
    ensures
        tabs_without_user(tabs.push(t), user_id) == if t.user_id == user_id {
            tabs_without_user(tabs, user_id)
        } else {
            tabs_without_user(tabs, user_id).push(t)
        },
{
    assert(tabs.push(t).drop_last() =~= tabs);
    assert(tabs.push(t).last() == t);
}

/// The kept rows are exactly the rows of other users: each kept row is an old
/// row not owned by the user, ids stay pairwise distinct, and every old row
/// of another owner is kept.
proof fn lemma_tabs_without_user_props(tabs: Seq<TabV>, user_id: Seq<char>)
    requires
        forall|a: int, b: int|
            #![trigger tabs[a], tabs[b]]
            0 <= a < b < tabs.len() ==> tabs[a].id != tabs[b].id,
    ensures
        tabs_without_user(tabs, user_id).len() <= tabs.len(),
        forall|a: int|
            #![trigger tabs_without_user(tabs, user_id)[a]]
            0 <= a < tabs_without_user(tabs, user_id).len() ==> tabs_without_user(
                tabs,
                user_id,
            )[a].user_id != user_id && exists|b: int|
                0 <= b < tabs.len() && tabs_without_user(tabs, user_id)[a] == #[trigger] tabs[b],
        forall|a: int, b: int|
            #![trigger tabs_without_user(tabs, user_id)[a], tabs_without_user(tabs, user_id)[b]]
            0 <= a < b < tabs_without_user(tabs, user_id).len() ==> tabs_without_user(
                tabs,
                user_id,
            )[a].id != tabs_without_user(tabs, user_id)[b].id,
        forall|b: int|
            #![trigger tabs[b]]
            0 <= b < tabs.len() && tabs[b].user_id != user_id ==> exists|a: int|
                0 <= a < tabs_without_user(tabs, user_id).len() && tabs[b]
                    == #[trigger] tabs_without_user(tabs, user_id)[a],
    decreases tabs.len(),
{
    if tabs.len() > 0 {
        assert forall|a: int, b: int|
            #![trigger tabs.drop_last()[a], tabs.drop_last()[b]]
            0 <= a < b < tabs.drop_last().len() implies tabs.drop_last()[a].id
            != tabs.drop_last()[b].id by {
            assert(tabs.drop_last()[a] == tabs[a] && tabs.drop_last()[b] == tabs[b]);
        }
        lemma_tabs_without_user_props(tabs.drop_last(), user_id);
        let out = tabs_without_user(tabs, user_id);
        let rest = tabs_without_user(tabs.drop_last(), user_id);
        assert forall|a: int|
            #![trigger out[a]]
            0 <= a < out.len() implies out[a].user_id != user_id && exists|b: int|
            0 <= b < tabs.len() && out[a] == #[trigger] tabs[b] by {
            if a < rest.len() {
                assert(out[a] == rest[a]);
                let b = choose|b: int|
                    0 <= b < tabs.drop_last().len() && rest[a] == #[trigger] tabs.drop_last()[b];
                assert(tabs[b] == tabs.drop_last()[b]);
            } else {
                assert(out[a] == tabs.last());
                assert(tabs[tabs.len() - 1] == tabs.last());
            }
        }
        assert forall|a: int, b: int|
            #![trigger out[a], out[b]]
            0 <= a < b < out.len() implies out[a].id != out[b].id by {
            if b < rest.len() {
                assert(out[a] == rest[a] && out[b] == rest[b]);
            } else {
                assert(out[b] == tabs.last());
                assert(out[a] == rest[a]);
                let c = choose|c: int|
                    0 <= c < tabs.drop_last().len() && rest[a] == #[trigger] tabs.drop_last()[c];
                assert(tabs[c] == tabs.drop_last()[c]);
                assert(tabs[tabs.len() - 1] == tabs.last());
            }
        }
        assert forall|b: int|
            #![trigger tabs[b]]
            0 <= b < tabs.len() && tabs[b].user_id != user_id implies exists|a: int|
            0 <= a < out.len() && tabs[b] == #[trigger] out[a] by {
            if b < tabs.len() - 1 {
                assert(tabs.drop_last()[b] == tabs[b]);
                let a = choose|a: int| 0 <= a < rest.len() && tabs.drop_last()[b] == #[trigger] rest[a];
                assert(out[a] == rest[a]);
            } else {
                assert(tabs[b] == tabs.last());
                assert(out[out.len() - 1] == tabs.last());
            }
        }
    }
}

/// The association rows that survive a per-user teardown of tabs: those whose
/// tab is not owned by the user.
pub open spec fn tab_tags_without_tab_owner(
    s: StoreV,
    tts: Seq<TabTagV>,
    user_id: Seq<char>,
) -> Seq<TabTagV>
    decreases tts.len(),
{
    if tts.len() == 0 {
        Seq::empty()
    } else {
        let rest = tab_tags_without_tab_owner(s, tts.drop_last(), user_id);
        let tt = tts.last();
        if s.has_tab_id(tt.tab_id) && s.tabs[s.tab_idx_by_id(tt.tab_id)].user_id == user_id {
            rest
        } else {
            rest.push(tt)
        }
    }
}

proof fn lemma_tab_tags_without_tab_owner_push(
    s: StoreV,
    tts: Seq<TabTagV>,
    t: TabTagV,
    user_id: Seq<char>,
)
    ensures
        tab_tags_without_tab_owner(s, tts.push(t), user_id) == if s.has_tab_id(t.tab_id)
            && s.tabs[s.tab_idx_by_id(t.tab_id)].user_id == user_id {
            tab_tags_without_tab_owner(s, tts, user_id)
        } else {
            tab_tags_without_tab_owner(s, tts, user_id).push(t)
        },
{
    assert(tts.push(t).drop_last() =~= tts);
    assert(tts.push(t).last() == t);
}

/// Each kept association is an old row whose tab another user owns; rows stay
/// pairwise distinct.
proof fn lemma_tab_tags_without_tab_owner_props(s: StoreV, tts: Seq<TabTagV>, user_id: Seq<char>)
    requires
        forall|a: int, b: int|
            #![trigger tts[a], tts[b]]
            0 <= a < b < tts.len() ==> !(tts[a].tab_id == tts[b].tab_id && tts[a].tag_id
                == tts[b].tag_id),
    ensures
        forall|a: int|
            #![trigger tab_tags_without_tab_owner(s, tts, user_id)[a]]
            0 <= a < tab_tags_without_tab_owner(s, tts, user_id).len() ==> !(s.has_tab_id(
                tab_tags_without_tab_owner(s, tts, user_id)[a].tab_id,
            ) && s.tabs[s.tab_idx_by_id(
                tab_tags_without_tab_owner(s, tts, user_id)[a].tab_id,
            )].user_id == user_id) && exists|b: int|
                0 <= b < tts.len() && tab_tags_without_tab_owner(s, tts, user_id)[a]
                    == #[trigger] tts[b],
        forall|a: int, b: int|
            #![trigger tab_tags_without_tab_owner(s, tts, user_id)[a], tab_tags_without_tab_owner(s, tts, user_id)[b]]
            0 <= a < b < tab_tags_without_tab_owner(s, tts, user_id).len() ==> !(
            tab_tags_without_tab_owner(s, tts, user_id)[a].tab_id == tab_tags_without_tab_owner(
                s,
                tts,
                user_id,
            )[b].tab_id && tab_tags_without_tab_owner(s, tts, user_id)[a].tag_id
                == tab_tags_without_tab_owner(s, tts, user_id)[b].tag_id),
    decreases tts.len(),
{
    if tts.len() > 0 {
        assert forall|a: int, b: int|
            #![trigger tts.drop_last()[a], tts.drop_last()[b]]
            0 <= a < b < tts.drop_last().len() implies !(tts.drop_last()[a].tab_id
            == tts.drop_last()[b].tab_id && tts.drop_last()[a].tag_id == tts.drop_last()[
            b
        ].tag_id) by {
            assert(tts.drop_last()[a] == tts[a] && tts.drop_last()[b] == tts[b]);
        }
        lemma_tab_tags_without_tab_owner_props(s, tts.drop_last(), user_id);
        let out = tab_tags_without_tab_owner(s, tts, user_id);
        let rest = tab_tags_without_tab_owner(s, tts.drop_last(), user_id);
        assert forall|a: int|
            #![trigger out[a]]
            0 <= a < out.len() implies !(s.has_tab_id(out[a].tab_id) && s.tabs[s.tab_idx_by_id(
            out[a].tab_id,
        )].user_id == user_id) && exists|b: int|
            0 <= b < tts.len() && out[a] == #[trigger] tts[b] by {
            if a < rest.len() {
                assert(out[a] == rest[a]);
                let b = choose|b: int|
                    0 <= b < tts.drop_last().len() && rest[a] == #[trigger] tts.drop_last()[b];
                assert(tts[b] == tts.drop_last()[b]);
            } else {
                assert(out[a] == tts.last());
                assert(tts[tts.len() - 1] == tts.last());
            }
        }
        assert forall|a: int, b: int|
            #![trigger out[a], out[b]]
            0 <= a < b < out.len() implies !(out[a].tab_id == out[b].tab_id && out[a].tag_id
            == out[b].tag_id) by {
            if b < rest.len() {
                assert(out[a] == rest[a] && out[b] == rest[b]);
            } else {
                assert(out[b] == tts.last());
                assert(out[a] == rest[a]);
                let c = choose|c: int|
                    0 <= c < tts.drop_last().len() && rest[a] == #[trigger] tts.drop_last()[c];
                assert(tts[c] == tts.drop_last()[c]);
                assert(tts[tts.len() - 1] == tts.last());
            }
        }
    }
}


/// The per-user teardown keeps the store well-formed: the kept tabs are a
/// distinct sub-listing, and every kept association still points at a kept
/// tab and an untouched tag.
#[verifier::rlimit(100)]
#[verifier::spinoff_prover]
proof fn lemma_wf_delete_user_tabs(s0: StoreV, user_id: Seq<char>)
    requires
        s0.wf(),
    ensures
        spec_delete_user_tabs(s0, user_id).0.wf(),
{
    lemma_tabs_without_user_props(s0.tabs, user_id);
    lemma_tab_tags_without_tab_owner_props(s0, s0.tab_tags, user_id);
    let tabs2 = tabs_without_user(s0.tabs, user_id);
    let tts2 = tab_tags_without_tab_owner(s0, s0.tab_tags, user_id);
    assert forall|a: int|
        #![trigger s0.tags[a]]
        0 <= a < s0.tags.len() implies exists|b: int|
        0 <= b < s0.tags.len() && s0.tags[a] == #[trigger] s0.tags[b] by {
        assert(0 <= a < s0.tags.len() && s0.tags[a] == s0.tags[a]);
    }
    assert forall|a: int|
        #![trigger tts2[a]]
        0 <= a < tts2.len() implies (exists|b: int|
        0 <= b < tabs2.len() && #[trigger] tabs2[b].id == tts2[a].tab_id) && (exists|b: int|
        0 <= b < s0.tags.len() && #[trigger] s0.tags[b].id == tts2[a].tag_id) by {
        let c = choose|c: int| 0 <= c < s0.tab_tags.len() && tts2[a] == #[trigger] s0.tab_tags[c];
        assert(s0.has_tab_id(s0.tab_tags[c].tab_id) && s0.has_tag_id(s0.tab_tags[c].tag_id));
        let w = choose|w: int| 0 <= w < s0.tabs.len() && s0.tabs[w].id == s0.tab_tags[c].tab_id;
        assert(w == s0.tab_idx_by_id(tts2[a].tab_id));
        assert(s0.tabs[w].user_id != user_id);
        let b = choose|b: int| 0 <= b < tabs2.len() && s0.tabs[w] == #[trigger] tabs2[b];
        assert(tabs2[b].id == tts2[a].tab_id);
        let w2 = choose|w: int| 0 <= w < s0.tags.len() && s0.tags[w].id == s0.tab_tags[c].tag_id;
        assert(s0.tags[w2].id == tts2[a].tag_id);
    }
    crate::store::lemma_wf_replace(s0, tabs2, s0.tags, tts2);
}

/// Per-user teardown: deletes every tab of one user, with each tab's
/// association rows, and counts the removed tabs.
pub open spec fn spec_delete_user_tabs(s: StoreV, user_id: Seq<char>) -> (StoreV, int) {
    let tabs2 = tabs_without_user(s.tabs, user_id);
    (
        StoreV {
            tabs: tabs2,
            tab_tags: tab_tags_without_tab_owner(s, s.tab_tags, user_id),
            ..s
        },
        s.tabs.len() - tabs2.len(),
    )
}

pub fn delete_user_tabs(store: &mut Store, user_id: String) -> (r: Result<usize, AppError>)
    requires
        old(store)@.wf(),
    ensures
        final(store)@.wf(),
        ({
            let (s2, n) = spec_delete_user_tabs(old(store)@, user_id@);
            final(store)@ == s2 && (r matches Ok(c) && c as int == n)
        }),
{
    let ghost s0 = store@;
    let mut kept_tabs: Vec<Tab> = Vec::new();
    let total = store.tabs.len();
    proof {
        assert(store@.tabs.subrange(0, 0) =~= Seq::<TabV>::empty());
        assert(kept_tabs.deep_view() =~= Seq::<TabV>::empty());
    }
    for i in 0..total
        invariant
            total == store.tabs.len(),
            kept_tabs.deep_view() == tabs_without_user(store@.tabs.subrange(0, i as int), user_id@),
            kept_tabs.len() <= i,
    {
        proof {
            assert(store@.tabs.subrange(0, i as int + 1) =~= store@.tabs.subrange(0, i as int).push(
                store@.tabs[i as int],
            ));
            lemma_tabs_without_user_push(
                store@.tabs.subrange(0, i as int),
                store@.tabs[i as int],
                user_id@,
            );
        }
        if !(store.tabs[i].user_id == user_id) {
            kept_tabs.push(store.tabs[i].clone());
        }
    }
    proof {
        assert(store@.tabs.subrange(0, total as int) =~= store@.tabs);
    }
    let removed = total - kept_tabs.len();
    let mut kept_tts: Vec<TabTag> = Vec::new();
    let ntt = store.tab_tags.len();
    proof {
        assert(store@.tab_tags.subrange(0, 0) =~= Seq::<TabTagV>::empty());
        assert(kept_tts.deep_view() =~= Seq::<TabTagV>::empty());
    }
    for i in 0..ntt
        invariant
            store@ == s0,
            s0.wf(),
            ntt == store.tab_tags.len(),
            kept_tts.deep_view() == tab_tags_without_tab_owner(
                store@,
                store@.tab_tags.subrange(0, i as int),
                user_id@,
            ),
    {
        proof {
            assert(store@.tab_tags.subrange(0, i as int + 1) =~= store@.tab_tags.subrange(
                0,
                i as int,
            ).push(store@.tab_tags[i as int]));
            lemma_tab_tags_without_tab_owner_push(
                store@,
                store@.tab_tags.subrange(0, i as int),
                store@.tab_tags[i as int],
                user_id@,
            );
        }
        let tt = &store.tab_tags[i];
        let owned = match store.find_tab_by_id(&tt.tab_id) {
            None => {
                proof {
                    assert(store@.has_tab_id(store@.tab_tags[i as int].tab_id));
                    assert(false);
                }
                false
            },
            Some(w) => {
                proof {
                    let j = store@.tab_idx_by_id(store@.tab_tags[i as int].tab_id);
                    assert(0 <= j < store@.tabs.len() && store@.tabs[j].id == store@.tab_tags[
                        i as int
                    ].tab_id);
                    assert(j == w as int);
                }
                store.tabs[w].user_id == user_id
            },
        };
        if !owned {
            kept_tts.push(store.tab_tags[i].clone());
        }
    }
    proof {
        assert(store@.tab_tags.subrange(0, ntt as int) =~= store@.tab_tags);
    }
    store.tabs = kept_tabs;
    store.tab_tags = kept_tts;
    proof {
        let (s2, n) = spec_delete_user_tabs(s0, user_id@);
        assert(store@ == s2);
        lemma_wf_delete_user_tabs(s0, user_id@);
    }
    Ok(removed)
}


/// The tab rows a batch insert appends: fresh counter ids, fields from the
/// batch, in order.
pub open spec fn created_tabs_from_new(next: nat, data: Seq<NewTabV>) -> Seq<TabV> {
    Seq::new(
        data.len(),
        |a: int| TabV {
            id: dec_digits((next + a) as nat),
            user_id: data[a].user_id,
            url: data[a].url,
            notes: data[a].notes,
        },
    )
}

/// A batch tab insert is atomic: it checks every owner first and appends
/// nothing when one is unknown.
pub open spec fn spec_bulk_insert_tabs(s: StoreV, data: Seq<NewTabV>) -> (StoreV, Result<
    Seq<TabV>,
    AppErrorV,
>) {
    if !(forall|a: int| #![trigger data[a]] 0 <= a < data.len() ==> s.has_user_id(data[a].user_id)) {
        (s, Err(AppErrorV::DBError))
    } else {
        let created = created_tabs_from_new(s.next_id, data);
        (
            StoreV { tabs: s.tabs + created, next_id: s.next_id + data.len(), ..s },
            Ok(created),
        )
    }
}

pub fn bulk_insert_tabs(store: &mut Store, data: Vec<NewTab>) -> (r: Result<Vec<Tab>, AppError>)
    requires
        old(store)@.wf(),
        old(store)@.next_id + data@.len() <= u64::MAX,
    ensures
        final(store)@.wf(),
        ({
            let (s2, res) = spec_bulk_insert_tabs(old(store)@, data.deep_view());
            final(store)@ == s2 && res_v(r) == res
        }),
{
    let ghost s0 = store@;
    let ghost datav = data.deep_view();
    let n = data.len();
    for a in 0..n
        invariant
            n == data.len(),
            datav == data.deep_view(),
            store@ == s0,
            s0.wf(),
            forall|k: int| #![trigger datav[k]] 0 <= k < a ==> store@.has_user_id(datav[k].user_id),
    {
        if store.find_user_by_id(&data[a].user_id).is_none() {
            proof {
                assert(data.deep_view()[a as int] == datav[a as int]);
                assert(!store@.has_user_id(datav[a as int].user_id));
            }
            return Err(AppError::DBError);
        }
    }
    let mut out: Vec<Tab> = Vec::new();
    proof {
        assert(store@.tabs =~= s0.tabs + created_tabs_from_new(s0.next_id, datav).subrange(0, 0));
        assert(out.deep_view() =~= created_tabs_from_new(s0.next_id, datav).subrange(0, 0));
    }
    for a in 0..n
        invariant
            n == data.len(),
            datav == data.deep_view(),
            store@.wf(),
            store@.tags == s0.tags,
            store@.users == s0.users,
            store@.sessions == s0.sessions,
            store@.invites == s0.invites,
            store@.tab_tags == s0.tab_tags,
            store@.next_id == s0.next_id + a,
            s0.next_id + n <= u64::MAX,
            store@.tabs == s0.tabs + created_tabs_from_new(s0.next_id, datav).subrange(0, a as int),
            out.deep_view() == created_tabs_from_new(s0.next_id, datav).subrange(0, a as int),
            forall|k: int| #![trigger datav[k]] 0 <= k < n ==> s0.has_user_id(datav[k].user_id),
    {
        let ghost scur = store@;
        let ghost prevo = out.deep_view();
        let id = u64_to_string(store.next_id);
        store.next_id = store.next_id + 1;
        let row = Tab {
            id,
            user_id: data[a].user_id.clone(),
            url: data[a].url.clone(),
            notes: match &data[a].notes {
                Some(x) => Some(x.clone()),
                None => None,
            },
        };
        let ghost rowv = row@;
        out.push(row.clone());
        proof {
            crate::store::lemma_has_user_id_frame(s0, scur, datav[a as int].user_id);
            crate::store::lemma_wf_insert_tab(scur, rowv);
        }
        store.tabs.push(row);
        proof {
            assert(store@.tabs =~= StoreV { tabs: scur.tabs.push(rowv), ..scur }.tabs);
            assert(store@ == StoreV {
                tabs: scur.tabs.push(rowv),
                next_id: scur.next_id + 1,
                ..scur
            });
            assert(rowv == created_tabs_from_new(s0.next_id, datav)[a as int]);
            assert(out.deep_view().len() == prevo.len() + 1);
            assert(forall|m: int| 0 <= m < prevo.len() ==> out.deep_view()[m] == #[trigger] prevo[m]);
            assert(out.deep_view()[prevo.len() as int] == rowv);
            assert(store@.tabs =~~= s0.tabs + created_tabs_from_new(s0.next_id, datav).subrange(
                0,
                a as int + 1,
            ));
            assert(out.deep_view() =~~= created_tabs_from_new(s0.next_id, datav).subrange(
                0,
                a as int + 1,
            ));
        }
    }
    proof {
        assert(created_tabs_from_new(s0.next_id, datav).subrange(0, n as int)
            =~= created_tabs_from_new(s0.next_id, datav));
    }
    Ok(out)
}

// ---- the join the tag listings use ----

/// The tags attached to a tab, restricted to those the user owns: one walk
/// over the association rows, each resolved against the tag table.
pub open spec fn joined_tags(
    s: StoreV,
    tts: Seq<TabTagV>,
    tab_id: Seq<char>,
    user_id: Seq<char>,
) -> Seq<TagV>
    decreases tts.len(),
{
    if tts.len() == 0 {
        Seq::empty()
    } else {
        let rest = joined_tags(s, tts.drop_last(), tab_id, user_id);
        let tt = tts.last();
        if tt.tab_id == tab_id && s.has_tag_id(tt.tag_id) && s.tags[s.tag_idx_by_id(
            tt.tag_id,
        )].user_id == user_id {
            rest.push(s.tags[s.tag_idx_by_id(tt.tag_id)])
        } else {
            rest
        }
    }
}

proof fn lemma_joined_tags_push(
    s: StoreV,
    tts: Seq<TabTagV>,
    t: TabTagV,
    tab_id: Seq<char>,
    user_id: Seq<char>,
)
    ensures
        joined_tags(s, tts.push(t), tab_id, user_id) == if t.tab_id == tab_id && s.has_tag_id(
            t.tag_id,
        ) && s.tags[s.tag_idx_by_id(t.tag_id)].user_id == user_id {
            joined_tags(s, tts, tab_id, user_id).push(s.tags[s.tag_idx_by_id(t.tag_id)])
        } else {
            joined_tags(s, tts, tab_id, user_id)
        },
{
    assert(tts.push(t).drop_last() =~= tts);
    assert(tts.push(t).last() == t);
}

/// Collects the tags attached to a tab that the user owns.
pub fn collect_tab_tags(store: &Store, user_id: &String, tab_id: &String) -> (r: Vec<Tag>)
    requires
        store@.wf(),
    ensures
        r.deep_view() == joined_tags(store@, store@.tab_tags, tab_id@, user_id@),
{
    let mut out: Vec<Tag> = Vec::new();
    let n = store.tab_tags.len();
    proof {
        assert(store@.tab_tags.subrange(0, 0) =~= Seq::<TabTagV>::empty());
        assert(out.deep_view() =~= Seq::<TagV>::empty());
    }
    for i in 0..n
        invariant
            store@.wf(),
            n == store.tab_tags.len(),
            out.deep_view() == joined_tags(
                store@,
                store@.tab_tags.subrange(0, i as int),
                tab_id@,
                user_id@,
            ),
    {
        proof {
            assert(store@.tab_tags.subrange(0, i as int + 1) =~= store@.tab_tags.subrange(
                0,
                i as int,
            ).push(store@.tab_tags[i as int]));
            lemma_joined_tags_push(
                store@,
                store@.tab_tags.subrange(0, i as int),
                store@.tab_tags[i as int],
                tab_id@,
                user_id@,
            );
        }
        if store.tab_tags[i].tab_id == *tab_id {
            match store.find_tag_by_id(&store.tab_tags[i].tag_id) {
                None => {
                    proof {
                        assert(store@.has_tab_id(store@.tab_tags[i as int].tab_id)
                            && store@.has_tag_id(store@.tab_tags[i as int].tag_id));
                        assert(false);
                    }
                },
                Some(k) => {
                    proof {
                        let j = store@.tag_idx_by_id(store@.tab_tags[i as int].tag_id);
                        assert(0 <= j < store@.tags.len() && store@.tags[j].id == store@.tab_tags[
                            i as int
                        ].tag_id);
                        assert(j == k as int);
                    }
                    if store.tags[k].user_id == *user_id {
                        out.push(store.tags[k].clone());
                    }
                },
            }
        }
    }
    proof {
        assert(store@.tab_tags.subrange(0, n as int) =~= store@.tab_tags);
    }
    out
}

// ---- operations ----

/// Inserting a tab for an existing user; an unknown owner is a storage-level
/// error.
pub open spec fn spec_new_tab(s: StoreV, data: crate::models::tab::NewTabV) -> (StoreV, Result<
    TabV,
    AppErrorV,
>) {
    if !s.has_user_id(data.user_id) {
        (s, Err(AppErrorV::DBError))
    } else {
        let t = TabV {
            id: dec_digits(s.next_id),
            user_id: data.user_id,
            url: data.url,
            notes: data.notes,
        };
        (StoreV { tabs: s.tabs.push(t), next_id: s.next_id + 1, ..s }, Ok(t))
    }
}

pub fn new_tab(store: &mut Store, data: NewTab) -> (r: Result<Tab, AppError>)
    requires
        old(store)@.wf(),
        old(store)@.next_id < u64::MAX,
    ensures
        final(store)@.wf(),
        ({
            let (s2, res) = spec_new_tab(old(store)@, data@);
            final(store)@ == s2 && res_v(r) == res
        }),
{
    if store.find_user_by_id(&data.user_id).is_none() {
        return Err(AppError::DBError);
    }
    let id = u64_to_string(store.next_id);
    store.next_id = store.next_id + 1;
    let row = Tab { id, user_id: data.user_id, url: data.url, notes: data.notes };
    let out = row.clone();
    proof {
        lemma_wf_insert_tab(old(store)@, row@);
    }
    store.tabs.push(row);
    proof {
        let (s2, res) = spec_new_tab(old(store)@, data@);
        assert(store@.tabs =~= s2.tabs);
        assert(store@ == s2);
    }
    Ok(out)
}

/// The ownership-scoped tab lookup: a tab that exists but belongs to someone
/// else is indistinguishable from an absent one.
pub open spec fn spec_get_tab(s: StoreV, user_id: Seq<char>, tab_id: Seq<char>) -> Result<
    TabV,
    AppErrorV,
> {
    if s.has_tab_for(tab_id, user_id) {
        Ok(s.tabs[s.tab_idx_for(tab_id, user_id)])
    } else {
        Err(AppErrorV::NotFound)
    }
}

pub fn get_tab(store: &Store, user_id: String, tab_id: String) -> (r: Result<Tab, AppError>)
    requires
        store@.wf(),
    ensures
        res_v(r) == spec_get_tab(store@, user_id@, tab_id@),
{
    match store.find_tab_for(&tab_id, &user_id) {
        None => Err(AppError::NotFound),
        Some(i) => {
            proof {
                let j = store@.tab_idx_for(tab_id@, user_id@);
                assert(0 <= j < store@.tabs.len() && store@.tabs[j].id == tab_id@
                    && store@.tabs[j].user_id == user_id@);
                assert(j == i as int);
            }
            Ok(store.tabs[i].clone())
        },
    }
}

/// The tags attached to a tab, restricted to the requesting user's tags; a
/// tab without attachments yields the empty list, whoever asks.
pub open spec fn spec_get_tab_tags(s: StoreV, user_id: Seq<char>, tab_id: Seq<char>) -> Result<
    Seq<TagV>,
    AppErrorV,
> {
    Ok(joined_tags(s, s.tab_tags, tab_id, user_id))
}

pub fn get_tab_tags(store: &Store, user_id: String, tab_id: String) -> (r: Result<
    Vec<Tag>,
    AppError,
>)
    requires
        store@.wf(),
    ensures
        res_v(r) == spec_get_tab_tags(store@, user_id@, tab_id@),
{
    Ok(collect_tab_tags(store, &user_id, &tab_id))
}

/// The ownership-scoped tab together with its attached tags.
pub open spec fn spec_get_tab_with_tags(s: StoreV, user_id: Seq<char>, tab_id: Seq<char>) -> Result<
    crate::models::tab::TabWithTagsV,
    AppErrorV,
> {
    match spec_get_tab(s, user_id, tab_id) {
        Err(e) => Err(e),
        Ok(tab) => Ok(
            crate::models::tab::TabWithTagsV {
                tab,
                tags: joined_tags(s, s.tab_tags, tab_id, user_id),
            },
        ),
    }
}

pub fn get_tab_with_tags(store: &Store, user_id: String, tab_id: String) -> (r: Result<
    TabWithTags,
    AppError,
>)
    requires
        store@.wf(),
    ensures
        res_v(r) == spec_get_tab_with_tags(store@, user_id@, tab_id@),
{
    let tab = match get_tab(store, user_id.clone(), tab_id.clone()) {
        Err(e) => {
            return Err(e);
        },
        Ok(t) => t,
    };
    let tags = collect_tab_tags(store, &user_id, &tab_id);
    Ok(TabWithTags { tab, tags })
}

/// Clones one page out of a tab listing.
fn page_tabs(v: &Vec<Tab>, off: i64, lim: i64) -> (r: Vec<Tab>)
    requires
        0 <= off,
        0 <= lim,
    ensures
        r.deep_view() == page_of(v.deep_view(), off as int, lim as int),
{
    let mut out: Vec<Tab> = Vec::new();
    if off as u128 >= v.len() as u128 {
        proof {
            assert(out.deep_view() =~= page_of(v.deep_view(), off as int, lim as int));
        }
        return out;
    }
    let start: usize = off as usize;
    let mut k: usize = start;
    proof {
        assert(out.deep_view() =~= v.deep_view().subrange(start as int, start as int));
    }
    while k < v.len() && ((k - start) as u128) < (lim as u128)
        invariant
            start <= k <= v.len(),
            start == off as int,
            start < v.len(),
            k - start <= lim,
            out.deep_view() == v.deep_view().subrange(start as int, k as int),
        decreases v.len() - k,
    {
        let ghost prev = out.deep_view();
        out.push(v[k].clone());
        proof {
            assert(out.deep_view().len() == prev.len() + 1);
            assert(forall|m: int| 0 <= m < prev.len() ==> out.deep_view()[m] == #[trigger] prev[m]);
            assert(out.deep_view()[prev.len() as int] == v.deep_view()[k as int]);
            assert(out.deep_view() =~~= v.deep_view().subrange(start as int, k as int + 1));
        }
        k += 1;
    }
    proof {
        if k == v.len() {
            assert(out.deep_view() =~= page_of(v.deep_view(), off as int, lim as int));
        } else {
            assert(k - start == lim);
            assert(out.deep_view() =~= page_of(v.deep_view(), off as int, lim as int));
        }
    }
    out
}

/// Collects the user's tabs, newest first.
fn collect_user_tabs_desc(store: &Store, user_id: &String) -> (r: Vec<Tab>)
    ensures
        r.deep_view() == tabs_of_user(store@.tabs, user_id@).reverse(),
{
    let mut asc: Vec<Tab> = Vec::new();
    let n = store.tabs.len();
    proof {
        assert(store@.tabs.subrange(0, 0) =~= Seq::<TabV>::empty());
        assert(asc.deep_view() =~= Seq::<TabV>::empty());
    }
    for i in 0..n
        invariant
            n == store.tabs.len(),
            asc.deep_view() == tabs_of_user(store@.tabs.subrange(0, i as int), user_id@),
    {
        proof {
            assert(store@.tabs.subrange(0, i as int + 1) =~= store@.tabs.subrange(0, i as int).push(
                store@.tabs[i as int],
            ));
            lemma_tabs_of_user_push(
                store@.tabs.subrange(0, i as int),
                store@.tabs[i as int],
                user_id@,
            );
        }
        if store.tabs[i].user_id == *user_id {
            asc.push(store.tabs[i].clone());
        }
    }
    proof {
        assert(store@.tabs.subrange(0, n as int) =~= store@.tabs);
    }
    let mut out: Vec<Tab> = Vec::new();
    let m = asc.len();
    for k in 0..m
        invariant
            m == asc.len(),
            out.len() == k,
            forall|q: int| 0 <= q < k ==> out.deep_view()[q] == #[trigger] asc.deep_view()[m - 1
                - q],
    {
        out.push(asc[m - 1 - k].clone());
    }
    proof {
        assert(out.deep_view() =~~= asc.deep_view().reverse());
    }
    out
}

/// One page of a user's tabs, newest first; `has_more` says whether rows
/// remain past the page. A negative page size or offset is refused by the
/// storage layer.
pub open spec fn spec_get_user_tabs(s: StoreV, user_id: Seq<char>, pr: PaginationRequest) -> Result<
    PaginatedResultV<TabV>,
    AppErrorV,
> {
    let off = pr.spec_offset();
    let lim = pr.spec_limit();
    if lim < 0 || off < 0 {
        Err(AppErrorV::DBError)
    } else {
        let rows = tabs_of_user(s.tabs, user_id).reverse();
        Ok(
            PaginatedResultV {
                results: page_of(rows, off, lim),
                has_more: rows.len() - off > lim,
            },
        )
    }
}

pub fn get_user_tabs(store: &Store, user_id: String, pr: PaginationRequest) -> (r: Result<
    PaginatedResult<Tab>,
    AppError,
>)
    requires
        store@.wf(),
    ensures
        res_v(r) == spec_get_user_tabs(store@, user_id@, pr),
{
    let off = pr.offset();
    let lim = pr.limit();
    if lim < 0 || off < 0 {
        return Err(AppError::DBError);
    }
    let rows = collect_user_tabs_desc(store, &user_id);
    let has_more = has_more_calc(rows.len(), off, lim);
    let results = page_tabs(&rows, off, lim);
    Ok(PaginatedResult { results, has_more })
}

/// The combined removal of one tab row and of every association that
/// references it keeps the store well-formed.
proof fn lemma_wf_delete_tab(s0: StoreV, i: int)
    requires
        s0.wf(),
        0 <= i < s0.tabs.len(),
    ensures
        (StoreV {
            tabs: s0.tabs.remove(i),
            tab_tags: tab_tags_without_tab(s0.tab_tags, s0.tabs[i].id),
            ..s0
        }).wf(),
{
    let tab_id = s0.tabs[i].id;
    lemma_tab_tags_without_tab_props(s0.tab_tags, tab_id);
    let tts2 = tab_tags_without_tab(s0.tab_tags, tab_id);
    assert forall|a: int|
        #![trigger tts2[a]]
        0 <= a < tts2.len() implies s0.has_tab_id(tts2[a].tab_id) && s0.has_tag_id(
        tts2[a].tag_id,
    ) by {
        let c = choose|c: int| 0 <= c < s0.tab_tags.len() && tts2[a] == #[trigger] s0.tab_tags[c];
        assert(s0.has_tab_id(s0.tab_tags[c].tab_id) && s0.has_tag_id(s0.tab_tags[c].tag_id));
    }
    lemma_wf_replace_tab_tags(s0, tts2);
    let s1 = StoreV { tab_tags: tts2, ..s0 };
    assert forall|a: int|
        #![trigger s1.tab_tags[a]]
        0 <= a < s1.tab_tags.len() implies s1.tab_tags[a].tab_id != s1.tabs[i].id by {
        assert(tts2[a].tab_id != tab_id);
    }
    crate::store::lemma_wf_remove_tab(s1, i);
    assert(StoreV { tabs: s1.tabs.remove(i), ..s1 } == StoreV {
        tabs: s0.tabs.remove(i),
        tab_tags: tts2,
        ..s0
    });
}

/// Deleting a tab is ownership-scoped: only a tab owned by this user goes
/// away, and its association rows go with it, as one step. An absent or
/// foreign tab deletes nothing and counts zero.
pub open spec fn spec_delete_tab(s: StoreV, user_id: Seq<char>, tab_id: Seq<char>) -> (StoreV, int) {
    if s.has_tab_for(tab_id, user_id) {
        let i = s.tab_idx_for(tab_id, user_id);
        (
            StoreV {
                tabs: s.tabs.remove(i),
                tab_tags: tab_tags_without_tab(s.tab_tags, tab_id),
                ..s
            },
            1,
        )
    } else {
        (s, 0)
    }
}

pub fn delete_tab(store: &mut Store, user_id: String, tab_id: String) -> (r: Result<
    usize,
    AppError,
>)
    requires
        old(store)@.wf(),
    ensures
        final(store)@.wf(),
        ({
            let (s2, n) = spec_delete_tab(old(store)@, user_id@, tab_id@);
            final(store)@ == s2 && (r matches Ok(c) && c as int == n)
        }),
{
    let i = match store.find_tab_for(&tab_id, &user_id) {
        None => {
            return Ok(0);
        },
        Some(i) => i,
    };
    proof {
        let j = old(store)@.tab_idx_for(tab_id@, user_id@);
        assert(0 <= j < old(store)@.tabs.len() && old(store)@.tabs[j].id == tab_id@ && old(
            store,
        )@.tabs[j].user_id == user_id@);
        assert(j == i as int);
    }
    let kept = collect_tab_tags_without_tab(store, &tab_id);
    store.tab_tags = kept;
    store.tabs.remove(i);
    proof {
        let s0 = old(store)@;
        let (s2, n) = spec_delete_tab(s0, user_id@, tab_id@);
        assert(store@.tabs =~= s2.tabs);
        assert(store@ == s2);
        lemma_wf_delete_tab(s0, i as int);
    }
    Ok(1)
}

// ---- the full-replace update of a tab and its tag set ----

/// The ids of the requested tags that already exist, in request order.
pub open spec fn requested_existing_ids(ts: Seq<MaybeNewTagV>) -> Seq<Seq<char>>
    decreases ts.len(),
{
    if ts.len() == 0 {
        Seq::empty()
    } else {
        let rest = requested_existing_ids(ts.drop_last());
        match ts.last().id {
            Some(id) => rest.push(id),
            None => rest,
        }
    }
}

pub proof fn lemma_requested_existing_push(ts: Seq<MaybeNewTagV>, t: MaybeNewTagV)
    ensures
        requested_existing_ids(ts.push(t)) == match t.id {
            Some(id) => requested_existing_ids(ts).push(id),
            None => requested_existing_ids(ts),
        },
{
    assert(ts.push(t).drop_last() =~= ts);
    assert(ts.push(t).last() == t);
}

/// The requested tags that are to be created, in request order.
pub open spec fn requested_new(ts: Seq<MaybeNewTagV>) -> Seq<MaybeNewTagV>
    decreases ts.len(),
{
    if ts.len() == 0 {
        Seq::empty()
    } else {
        let rest = requested_new(ts.drop_last());
        match ts.last().id {
            Some(_) => rest,
            None => rest.push(ts.last()),
        }
    }
}

pub proof fn lemma_requested_new_push(ts: Seq<MaybeNewTagV>, t: MaybeNewTagV)
    ensures
        requested_new(ts.push(t)) == match t.id {
            Some(_) => requested_new(ts),
            None => requested_new(ts).push(t),
        },
{
    assert(ts.push(t).drop_last() =~= ts);
    assert(ts.push(t).last() == t);
}

pub proof fn lemma_requested_new_len(ts: Seq<MaybeNewTagV>)
    ensures
        requested_new(ts).len() <= ts.len(),
    decreases ts.len(),
{
    if ts.len() > 0 {
        lemma_requested_new_len(ts.drop_last());
    }
}

/// The rows that tag creation appends: fresh ids from the counter, owner and
/// text from the request.
pub open spec fn created_tags(next: nat, news: Seq<MaybeNewTagV>) -> Seq<TagV> {
    Seq::new(
        news.len(),
        |a: int| TagV { id: dec_digits((next + a) as nat), user_id: news[a].user_id, tag: news[a].tag },
    )
}

/// The association rows that attach the given tag ids to the tab.
pub open spec fn attach_rows(tab_id: Seq<char>, ids: Seq<Seq<char>>) -> Seq<TabTagV> {
    Seq::new(ids.len(), |a: int| TabTagV { tab_id: tab_id, tag_id: ids[a] })
}

/// What the storage layer checks before the update commits: every referenced
/// tag id exists, every owner of a tag to create exists, and no tag id is
/// requested twice.
pub open spec fn update_ok(s: StoreV, ts: Seq<MaybeNewTagV>) -> bool {
    let ex = requested_existing_ids(ts);
    let news = requested_new(ts);
    &&& forall|a: int| 0 <= a < ex.len() ==> s.has_tag_id(#[trigger] ex[a])
    &&& forall|a: int| #![trigger news[a]] 0 <= a < news.len() ==> s.has_user_id(news[a].user_id)
    &&& forall|a: int, b: int| #![trigger ex[a], ex[b]] 0 <= a < b < ex.len() ==> ex[a] != ex[b]
}

/// The full-replace update: the tab's scalar fields are overwritten, the tags
/// without an id are created, and the tab's association rows are replaced by
/// exactly the requested set — all as one transaction, so a failed check
/// leaves the store untouched. The reply carries the tab and its attached
/// tags as the requesting user sees them, ordered by tag text ascending.
pub open spec fn spec_update_tab_and_tags(
    s: StoreV,
    tab_id: Seq<char>,
    user_id: Seq<char>,
    upd: UpdateTabWithTagsV,
) -> (StoreV, Result<TabWithTagsV, AppErrorV>) {
    if !s.has_tab_for(tab_id, user_id) {
        (s, Err(AppErrorV::NotFound))
    } else if !update_ok(s, upd.tags) {
        (s, Err(AppErrorV::DBError))
    } else {
        let ti = s.tab_idx_for(tab_id, user_id);
        let t2 = TabV { url: upd.tab.url, notes: upd.tab.notes, ..s.tabs[ti] };
        let news = requested_new(upd.tags);
        let created = created_tags(s.next_id, news);
        let ids = requested_existing_ids(upd.tags) + Seq::new(
            created.len(),
            |a: int| created[a].id,
        );
        let s2 = StoreV {
            tabs: s.tabs.update(ti, t2),
            tags: s.tags + created,
            tab_tags: tab_tags_without_tab(s.tab_tags, tab_id) + attach_rows(tab_id, ids),
            next_id: s.next_id + news.len(),
            ..s
        };
        (
            s2,
            Ok(
                TabWithTagsV {
                    tab: t2,
                    tags: sort_tags(joined_tags(s2, s2.tab_tags, tab_id, user_id), true),
                },
            ),
        )
    }
}

pub fn update_tab_and_tags(
    store: &mut Store,
    tab_id: String,
    user_id: String,
    upd: UpdateTabWithTags,
) -> (r: Result<TabWithTags, AppError>)
    requires
        old(store)@.wf(),
        old(store)@.next_id + upd@.tags.len() <= u64::MAX,
    ensures
        final(store)@.wf(),
        ({
            let (s2, res) = spec_update_tab_and_tags(old(store)@, tab_id@, user_id@, upd@);
            final(store)@ == s2 && res_v(r) == res
        }),
{
    let ghost s0 = old(store)@;
    let ti = match store.find_tab_for(&tab_id, &user_id) {
        None => {
            return Err(AppError::NotFound);
        },
        Some(i) => i,
    };
    proof {
        let j = s0.tab_idx_for(tab_id@, user_id@);
        assert(0 <= j < s0.tabs.len() && s0.tabs[j].id == tab_id@ && s0.tabs[j].user_id
            == user_id@);
        assert(j == ti as int);
    }
    // partition the requested tag set
    let mut exist_ids: Vec<String> = Vec::new();
    let mut news: Vec<MaybeNewTag> = Vec::new();
    let n = upd.tags.len();
    proof {
        assert(upd.tags.deep_view().subrange(0, 0) =~= Seq::<MaybeNewTagV>::empty());
        assert(exist_ids.deep_view() =~= Seq::<Seq<char>>::empty());
        assert(news.deep_view() =~= Seq::<MaybeNewTagV>::empty());
    }
    for i in 0..n
        invariant
            n == upd.tags.len(),
            exist_ids.deep_view() == requested_existing_ids(
                upd.tags.deep_view().subrange(0, i as int),
            ),
            news.deep_view() == requested_new(upd.tags.deep_view().subrange(0, i as int)),
    {
        proof {
            assert(upd.tags.deep_view().subrange(0, i as int + 1) =~= upd.tags.deep_view().subrange(
                0,
                i as int,
            ).push(upd.tags.deep_view()[i as int]));
            lemma_requested_existing_push(
                upd.tags.deep_view().subrange(0, i as int),
                upd.tags.deep_view()[i as int],
            );
            lemma_requested_new_push(
                upd.tags.deep_view().subrange(0, i as int),
                upd.tags.deep_view()[i as int],
            );
        }
        match &upd.tags[i].id {
            Some(id) => {
                exist_ids.push(id.clone());
                proof {
                    assert(exist_ids.deep_view() =~~= requested_existing_ids(
                        upd.tags.deep_view().subrange(0, i as int + 1),
                    ));
                }
            },
            None => {
                news.push(upd.tags[i].clone());
                proof {
                    assert(news.deep_view() =~~= requested_new(
                        upd.tags.deep_view().subrange(0, i as int + 1),
                    ));
                }
            },
        }
    }
    proof {
        assert(upd.tags.deep_view().subrange(0, n as int) =~= upd.tags.deep_view());
    }
    let ghost ex = requested_existing_ids(upd.tags.deep_view());
    let ghost newsv = requested_new(upd.tags.deep_view());
    // the checks the storage layer makes before anything is written
    let ne = exist_ids.len();
    for a in 0..ne
        invariant
            ne == exist_ids.len(),
            ex == requested_existing_ids(upd.tags.deep_view()),
            exist_ids.deep_view() == ex,
            store == old(store),
            forall|k: int| 0 <= k < a ==> store@.has_tag_id(#[trigger] ex[k]),
            old(store)@.wf(),
            old(store)@.has_tab_for(tab_id@, user_id@),
            forall|k: int, l: int| #![trigger ex[k], ex[l]] 0 <= k < l < a ==> ex[k] != ex[l],
    {
        if store.find_tag_by_id(&exist_ids[a]).is_none() {
            proof {
                assert(exist_ids.deep_view()[a as int] == ex[a as int]);
                assert(!store@.has_tag_id(ex[a as int]));
                assert(!update_ok(store@, upd.tags.deep_view()));
            }
            return Err(AppError::DBError);
        }
        for b in 0..a
            invariant
                ne == exist_ids.len(),
                a < ne,
                ex == requested_existing_ids(upd.tags.deep_view()),
                exist_ids.deep_view() == ex,
                store == old(store),
                old(store)@.wf(),
                old(store)@.has_tab_for(tab_id@, user_id@),
                forall|l: int| 0 <= l < b ==> ex[l] != ex[a as int],
        {
            if exist_ids[b] == exist_ids[a] {
                proof {
                    assert(ex[b as int] == ex[a as int]);
                    assert(!update_ok(store@, upd.tags.deep_view()));
                }
                return Err(AppError::DBError);
            }
        }
    }
    let nn = news.len();
    for a in 0..nn
        invariant
            nn == news.len(),
            newsv == requested_new(upd.tags.deep_view()),
            news.deep_view() == newsv,
            store == old(store),
            old(store)@.wf(),
            old(store)@.has_tab_for(tab_id@, user_id@),
            forall|k: int| #![trigger newsv[k]] 0 <= k < a ==> store@.has_user_id(newsv[k].user_id),
    {
        if store.find_user_by_id(&news[a].user_id).is_none() {
            proof {
                assert(news.deep_view()[a as int] == newsv[a as int]);
                assert(!store@.has_user_id(newsv[a as int].user_id));
                assert(!update_ok(store@, upd.tags.deep_view()));
            }
            return Err(AppError::DBError);
        }
    }
    proof {
        assert(update_ok(s0, upd.tags.deep_view()));
        lemma_requested_new_len(upd.tags.deep_view());
    }
    // phase one: overwrite the tab's scalar fields
    let trow = Tab {
        id: store.tabs[ti].id.clone(),
        user_id: store.tabs[ti].user_id.clone(),
        url: upd.tab.url,
        notes: upd.tab.notes,
    };
    let tab_out = trow.clone();
    proof {
        crate::store::lemma_wf_update_tab(s0, ti as int, trow@);
    }
    store.tabs.set(ti, trow);
    let ghost sa = StoreV { tabs: s0.tabs.update(ti as int, tab_out@), ..s0 };
    proof {
        assert(store@.tabs =~= sa.tabs);
        assert(store@ == sa);
    }
    // phase two: create the tags that were requested without an id
    let mut created_ids: Vec<String> = Vec::new();
    proof {
        assert forall|k: int| #![trigger newsv[k]] 0 <= k < nn implies sa.has_user_id(
            newsv[k].user_id,
        ) by {
            crate::store::lemma_has_user_id_frame(s0, sa, newsv[k].user_id);
        }
        assert(store@.tags =~= sa.tags + created_tags(sa.next_id, newsv).subrange(0, 0));
        assert(created_ids.deep_view() =~= Seq::new(
            0,
            |k: int| dec_digits((sa.next_id + k) as nat),
        ));
    }
    for a in 0..nn
        invariant
            nn == news.len(),
            news.deep_view() == newsv,
            store@.wf(),
            store@.tabs == sa.tabs,
            store@.users == sa.users,
            store@.sessions == sa.sessions,
            store@.invites == sa.invites,
            store@.tab_tags == sa.tab_tags,
            store@.next_id == sa.next_id + a,
            sa.next_id + nn <= u64::MAX,
            store@.tags == sa.tags + created_tags(sa.next_id, newsv).subrange(0, a as int),
            created_ids.deep_view() == Seq::new(
                a as nat,
                |k: int| dec_digits((sa.next_id + k) as nat),
            ),
            forall|k: int| #![trigger newsv[k]] 0 <= k < nn ==> sa.has_user_id(newsv[k].user_id),
    {
        let ghost scur = store@;
        let ghost prevc = created_ids.deep_view();
        let id = u64_to_string(store.next_id);
        created_ids.push(id.clone());
        proof {
            assert(created_ids.deep_view().len() == prevc.len() + 1);
            assert(forall|m: int|
                0 <= m < prevc.len() ==> created_ids.deep_view()[m] == #[trigger] prevc[m]);
            assert(created_ids.deep_view()[prevc.len() as int] == id@);
        }
        store.next_id = store.next_id + 1;
        let row = Tag { id, user_id: news[a].user_id.clone(), tag: news[a].tag.clone() };
        proof {
            crate::store::lemma_has_user_id_frame(sa, scur, newsv[a as int].user_id);
            crate::store::lemma_wf_insert_tag(scur, row@);
        }
        store.tags.push(row);
        proof {
            assert(store@.tags =~= StoreV { tags: scur.tags.push(row@), ..scur }.tags);
            assert(store@ == StoreV {
                tags: scur.tags.push(row@),
                next_id: scur.next_id + 1,
                ..scur
            });
            assert(store@.tags =~~= sa.tags + created_tags(sa.next_id, newsv).subrange(
                0,
                a as int + 1,
            ));
            assert_seqs_equal!(
                created_ids.deep_view() == Seq::new(
                    a as nat + 1,
                    |k: int| dec_digits((sa.next_id + k) as nat),
                ),
                m => {
                    if m < prevc.len() {
                        assert(created_ids.deep_view()[m] == prevc[m]);
                    } else {
                        assert(created_ids.deep_view()[m] == id@);
                    }
                }
            );
        }
    }
    let ghost created = created_tags(sa.next_id, newsv);
    let ghost sb = StoreV { tags: sa.tags + created, next_id: sa.next_id + nn as nat, ..sa };
    proof {
        assert(created.subrange(0, nn as int) =~= created);
        assert(store@ == sb);
    }
    // phase three: replace the tab's association rows by the requested set
    let mut tts: Vec<TabTag> = collect_tab_tags_without_tab(store, &tab_id);
    let ghost kept = tab_tags_without_tab(s0.tab_tags, tab_id@);
    let ghost ids = ex + Seq::new(created.len(), |a: int| created[a].id);
    proof {
        assert(tts.deep_view() =~= kept + attach_rows(tab_id@, ex.subrange(0, 0)));
    }
    for a in 0..ne
        invariant
            ne == exist_ids.len(),
            exist_ids.deep_view() == ex,
            tts.deep_view() == kept + attach_rows(tab_id@, ex.subrange(0, a as int)),
        decreases ne - a,
    {
        let ghost prev = tts.deep_view();
        tts.push(TabTag { tab_id: tab_id.clone(), tag_id: exist_ids[a].clone() });
        proof {
            assert(tts.deep_view().len() == prev.len() + 1);
            assert(forall|m: int| 0 <= m < prev.len() ==> tts.deep_view()[m] == #[trigger] prev[m]);
            assert(tts.deep_view()[prev.len() as int] == TabTagV {
                tab_id: tab_id@,
                tag_id: ex[a as int],
            });
            assert_seqs_equal!(
                tts.deep_view() == kept + attach_rows(tab_id@, ex.subrange(0, a as int + 1)),
                m => {
                    if m < prev.len() {
                        assert(tts.deep_view()[m] == prev[m]);
                    } else {
                        assert(tts.deep_view()[m] == TabTagV {
                            tab_id: tab_id@,
                            tag_id: ex[a as int],
                        });
                    }
                }
            );
        }
    }
    proof {
        assert(ex.subrange(0, ne as int) =~= ex);
        assert(ex + ids.subrange(ne as int, ne as int) =~= ex);
        assert(tts.deep_view() =~= kept + attach_rows(tab_id@, ex + ids.subrange(
            ne as int,
            ne as int,
        )));
    }
    let nc = created_ids.len();
    for a in 0..nc
        invariant
            nc == created_ids.len(),
            nc == nn,
            nn == news.len(),
            news.deep_view() == newsv,
            created == created_tags(sa.next_id, newsv),
            ids == ex + Seq::new(created.len(), |q: int| created[q].id),
            ne == ex.len(),
            created_ids.deep_view() == Seq::new(
                nn as nat,
                |k: int| dec_digits((sa.next_id + k) as nat),
            ),
            tts.deep_view() == kept + attach_rows(tab_id@, ex + ids.subrange(
                ne as int,
                ne as int + a,
            )),
        decreases nc - a,
    {
        let ghost prev = tts.deep_view();
        tts.push(TabTag { tab_id: tab_id.clone(), tag_id: created_ids[a].clone() });
        proof {
            assert(tts.deep_view().len() == prev.len() + 1);
            assert(forall|m: int| 0 <= m < prev.len() ==> tts.deep_view()[m] == #[trigger] prev[m]);
            assert(tts.deep_view()[prev.len() as int] == TabTagV {
                tab_id: tab_id@,
                tag_id: created_ids.deep_view()[a as int],
            });
            assert(created[a as int].id == dec_digits((sa.next_id + a) as nat));
            assert(ids[ne as int + a] == created[a as int].id);
            assert(ex + ids.subrange(ne as int, ne as int + a + 1) =~= (ex + ids.subrange(
                ne as int,
                ne as int + a,
            )).push(ids[ne as int + a]));
            assert_seqs_equal!(
                tts.deep_view() == kept + attach_rows(
                    tab_id@,
                    ex + ids.subrange(ne as int, ne as int + a + 1),
                ),
                m => {
                    if m < prev.len() {
                        assert(tts.deep_view()[m] == prev[m]);
                    } else {
                        assert(tts.deep_view()[m] == TabTagV {
                            tab_id: tab_id@,
                            tag_id: created_ids.deep_view()[a as int],
                        });
                        assert(ids[ne as int + a] == created_ids.deep_view()[a as int]);
                    }
                }
            );
        }
    }
    proof {
        assert(ex + ids.subrange(ne as int, ids.len() as int) =~= ids);
    }
    store.tab_tags = tts;
    proof {
        lemma_wf_update_replace(s0, sa, sb, ti as int, tab_id@, user_id@, upd.tags.deep_view());
        let (s2, res) = spec_update_tab_and_tags(s0, tab_id@, user_id@, upd@);
        assert(store@.tab_tags =~= s2.tab_tags);
        assert(store@.tags =~= s2.tags);
        assert(store@.tabs =~= s2.tabs);
        assert(store@ == s2);
    }
    let tags_found = collect_tab_tags(store, &user_id, &tab_id);
    let tags_out = sort_tags_exec(&tags_found, true);
    Ok(TabWithTags { tab: tab_out, tags: tags_out })
}

/// Well-formedness of the committed update: the tab row kept its id and
/// owner, the created tags carry fresh counter ids, and the new association
/// set is pairwise distinct with both ends present.
proof fn lemma_wf_update_replace(
    s0: StoreV,
    sa: StoreV,
    sb: StoreV,
    ti: int,
    tab_id: Seq<char>,
    user_id: Seq<char>,
    ts: Seq<MaybeNewTagV>,
)
    requires
        s0.wf(),
        sb.wf(),
        0 <= ti < s0.tabs.len(),
        s0.tabs[ti].id == tab_id,
        update_ok(s0, ts),
        sa == (StoreV {
            tabs: s0.tabs.update(
                ti,
                TabV {
                    url: sa.tabs[ti].url,
                    notes: sa.tabs[ti].notes,
                    ..s0.tabs[ti]
                },
            ),
            ..s0
        }),
        sb == (StoreV {
            tags: sa.tags + created_tags(sa.next_id, requested_new(ts)),
            next_id: sa.next_id + requested_new(ts).len(),
            ..sa
        }),
    ensures
        (StoreV {
            tab_tags: tab_tags_without_tab(s0.tab_tags, tab_id) + attach_rows(
                tab_id,
                requested_existing_ids(ts) + Seq::new(
                    requested_new(ts).len(),
                    |a: int| created_tags(s0.next_id, requested_new(ts))[a].id,
                ),
            ),
            ..sb
        }).wf(),
{
    let ex = requested_existing_ids(ts);
    let news = requested_new(ts);
    let created = created_tags(s0.next_id, news);
    let ids = ex + Seq::new(news.len(), |a: int| created[a].id);
    let kept = tab_tags_without_tab(s0.tab_tags, tab_id);
    let fresh = attach_rows(tab_id, ids);
    let tts2 = kept + fresh;
    lemma_tab_tags_without_tab_props(s0.tab_tags, tab_id);
    // distinct tag ends among the attached rows
    assert forall|a: int, b: int| #![trigger ids[a], ids[b]] 0 <= a < b < ids.len() implies ids[a] != ids[b] by {
        if a < ex.len() && b < ex.len() {
            assert(ex[a] != ex[b]);
        } else if a < ex.len() && b >= ex.len() {
            assert(s0.has_tag_id(ex[a]));
            let w = choose|w: int| 0 <= w < s0.tags.len() && s0.tags[w].id == ids[a];
            assert(s0.id_minted(s0.tags[w].id));
            let k = choose|k: nat| k < s0.next_id && s0.tags[w].id == #[trigger] dec_digits(k);
            assert(ids[b] == dec_digits((s0.next_id + (b - ex.len())) as nat));
            if ids[a] == ids[b] {
                crate::ids::lemma_dec_digits_injective(k, (s0.next_id + (b - ex.len())) as nat);
            }
        } else {
            assert(ids[a] == dec_digits((s0.next_id + (a - ex.len())) as nat));
            assert(ids[b] == dec_digits((s0.next_id + (b - ex.len())) as nat));
            if ids[a] == ids[b] {
                crate::ids::lemma_dec_digits_injective(
                    (s0.next_id + (a - ex.len())) as nat,
                    (s0.next_id + (b - ex.len())) as nat,
                );
            }
        }
    }
    // the new association rows are pairwise distinct and FK-valid in sb
    assert forall|a: int, b: int|
        #![trigger tts2[a], tts2[b]]
        0 <= a < b < tts2.len() implies !(tts2[a].tab_id == tts2[b].tab_id && tts2[a].tag_id
        == tts2[b].tag_id) by {
        if a < kept.len() && b < kept.len() {
            assert(tts2[a] == kept[a] && tts2[b] == kept[b]);
        } else if a < kept.len() {
            assert(tts2[a] == kept[a]);
            assert(kept[a].tab_id != tab_id);
            assert(tts2[b] == fresh[b - kept.len()]);
        } else {
            assert(tts2[a] == fresh[a - kept.len()] && tts2[b] == fresh[b - kept.len()]);
            assert(ids[a - kept.len()] != ids[b - kept.len()]);
        }
    }
    assert forall|a: int|
        #![trigger tts2[a]]
        0 <= a < tts2.len() implies sb.has_tab_id(tts2[a].tab_id) && sb.has_tag_id(
        tts2[a].tag_id,
    ) by {
        if a < kept.len() {
            assert(tts2[a] == kept[a]);
            let c = choose|c: int| 0 <= c < s0.tab_tags.len() && kept[a] == #[trigger] s0.tab_tags[c];
            assert(s0.has_tab_id(s0.tab_tags[c].tab_id) && s0.has_tag_id(s0.tab_tags[c].tag_id));
            let w1 = choose|w: int|
                0 <= w < s0.tabs.len() && s0.tabs[w].id == s0.tab_tags[c].tab_id;
            assert(sb.tabs[w1].id == s0.tabs[w1].id);
            let w2 = choose|w: int|
                0 <= w < s0.tags.len() && s0.tags[w].id == s0.tab_tags[c].tag_id;
            assert(sb.tags[w2] == s0.tags[w2]);
        } else {
            assert(tts2[a] == fresh[a - kept.len()]);
            assert(fresh[a - kept.len()].tab_id == tab_id);
            assert(sb.tabs[ti].id == tab_id);
            let e = a - kept.len();
            if e < ex.len() {
                assert(s0.has_tag_id(ex[e]));
                let w = choose|w: int| 0 <= w < s0.tags.len() && s0.tags[w].id == ids[e];
                assert(sb.tags[w] == s0.tags[w]);
            } else {
                assert(ids[e] == created[e - ex.len()].id);
                assert(sb.tags[s0.tags.len() + (e - ex.len())] == created[e - ex.len()]);
            }
        }
    }
    lemma_wf_replace_tab_tags(sb, tts2);
}


/// Ownership isolation for tabs: another user's tab is indistinguishable
/// from an absent one — reading it, updating it and deleting it all answer
/// `NotFound`, and nothing changes.
pub proof fn lemma_tab_ownership_isolation(
    s: StoreV,
    requester: Seq<char>,
    tab_id: Seq<char>,
    upd: UpdateTabWithTagsV,
)
    requires
        s.wf(),
        s.has_tab_id(tab_id),
        s.tabs[s.tab_idx_by_id(tab_id)].user_id != requester,
    ensures
        spec_get_tab(s, requester, tab_id) == Err::<TabV, AppErrorV>(AppErrorV::NotFound),
        spec_delete_tab(s, requester, tab_id) == (s, 0int),
        spec_update_tab_and_tags(s, tab_id, requester, upd) == (s, Err::<TabWithTagsV, AppErrorV>(
            AppErrorV::NotFound,
        )),
{
    let i = s.tab_idx_by_id(tab_id);
    assert(0 <= i < s.tabs.len() && s.tabs[i].id == tab_id);
    if s.has_tab_for(tab_id, requester) {
        let j = s.tab_idx_for(tab_id, requester);
        assert(0 <= j < s.tabs.len() && s.tabs[j].id == tab_id && s.tabs[j].user_id == requester);
        assert(j == i);
    }
}

/// A page that starts past the last row is empty, and `has_more` is off.
pub proof fn lemma_tabs_page_past_end(s: StoreV, user_id: Seq<char>, pr: PaginationRequest)
    requires
        pr.spec_offset() >= tabs_of_user(s.tabs, user_id).len(),
        pr.spec_limit() >= 0,
        pr.spec_offset() >= 0,
    ensures
        spec_get_user_tabs(s, user_id, pr) matches Ok(p) && p.results.len() == 0 && !p.has_more,
{
}


/// A committed full-replace update attaches to the tab exactly the requested
/// tag ids: the referenced existing ids plus the ids of the freshly created
/// tags, as a set.
pub proof fn lemma_update_sets_tag_set(
    s: StoreV,
    tab_id: Seq<char>,
    user_id: Seq<char>,
    upd: UpdateTabWithTagsV,
)
    requires
        s.wf(),
        spec_update_tab_and_tags(s, tab_id, user_id, upd).1 is Ok,
    ensures
        ({
            let (s2, _) = spec_update_tab_and_tags(s, tab_id, user_id, upd);
            let created = created_tags(s.next_id, requested_new(upd.tags));
            let ids = requested_existing_ids(upd.tags) + Seq::new(
                created.len(),
                |a: int| created[a].id,
            );
            s2.attached_tag_ids(tab_id) == ids.to_set()
        }),
{
    let (s2, _) = spec_update_tab_and_tags(s, tab_id, user_id, upd);
    let created = created_tags(s.next_id, requested_new(upd.tags));
    let ids = requested_existing_ids(upd.tags) + Seq::new(created.len(), |a: int| created[a].id);
    let kept = tab_tags_without_tab(s.tab_tags, tab_id);
    let fresh = attach_rows(tab_id, ids);
    lemma_tab_tags_without_tab_props(s.tab_tags, tab_id);
    assert(s2.tab_tags == kept + fresh);
    assert forall|t: Seq<char>| #[trigger] s2.attached_tag_ids(tab_id).contains(t) implies ids.to_set().contains(t) by {
        let w = choose|w: int|
            0 <= w < s2.tab_tags.len() && s2.tab_tags[w].tab_id == tab_id && s2.tab_tags[w].tag_id
                == t;
        if w < kept.len() {
            assert(s2.tab_tags[w] == kept[w]);
            assert(kept[w].tab_id != tab_id);
        } else {
            assert(s2.tab_tags[w] == fresh[w - kept.len()]);
            assert(ids[w - kept.len()] == t);
            assert(ids.contains(t));
        }
    }
    assert forall|t: Seq<char>| #[trigger] ids.to_set().contains(t) implies s2.attached_tag_ids(
        tab_id,
    ).contains(t) by {
        let k = choose|k: int| 0 <= k < ids.len() && ids[k] == t;
        assert(s2.tab_tags[kept.len() + k] == fresh[k]);
        assert(fresh[k].tab_id == tab_id && fresh[k].tag_id == t);
        assert(s2.has_tab_tag(tab_id, t));
    }
    assert(s2.attached_tag_ids(tab_id) =~= ids.to_set());
}

/// Replacing a tab's tag set with the very set it already has leaves the
/// attached set equal to before, as a set — the full replace is idempotent.
pub proof fn lemma_update_same_tags_idempotent(
    s: StoreV,
    tab_id: Seq<char>,
    user_id: Seq<char>,
    upd: UpdateTabWithTagsV,
)
    requires
        s.wf(),
        spec_update_tab_and_tags(s, tab_id, user_id, upd).1 is Ok,
        requested_new(upd.tags).len() == 0,
        requested_existing_ids(upd.tags).to_set() == s.attached_tag_ids(tab_id),
    ensures
        spec_update_tab_and_tags(s, tab_id, user_id, upd).0.attached_tag_ids(tab_id)
            == s.attached_tag_ids(tab_id),
{
    lemma_update_sets_tag_set(s, tab_id, user_id, upd);
    let created = created_tags(s.next_id, requested_new(upd.tags));
    let ids = requested_existing_ids(upd.tags) + Seq::new(created.len(), |a: int| created[a].id);
    assert(ids =~= requested_existing_ids(upd.tags));
}

} // verus!
