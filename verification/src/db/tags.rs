use crate::ids::{dec_digits, u64_to_string};
use crate::models::tab::{
    AttachTagRequest, CreatedTabTag, DetachTagRequest, NewTabTag, TabTag, TabTagV,
    TagAttachedResponse, TagDetachedResponse,
};
use crate::models::tag::{NewTag, NewTagV, Tag, TagV};
use crate::store::{
    lemma_wf_insert_tab_tag, lemma_wf_insert_tag, lemma_wf_remove_tab_tag, lemma_wf_remove_tag,
    lemma_wf_replace_tab_tags, Store, StoreV,
};
use crate::text::{contains_fragment, fuzzy_matches, seq_char_lt, str_lt};
use crate::types::{
    has_more_calc, page_of, res_v, AppError, AppErrorV, PaginatedResult, PaginatedResultV,
    PaginationRequest,
};
use vstd::assert_seqs_equal;
use vstd::prelude::*;

verus! {

// ---- filters over the tag table ----

/// The tags one user owns, in insertion order.
pub open spec fn tags_of_user(tags: Seq<TagV>, user_id: Seq<char>) -> Seq<TagV>
    decreases tags.len(),
{
    if tags.len() == 0 {
        Seq::empty()
    } else {
        let rest = tags_of_user(tags.drop_last(), user_id);
        if tags.last().user_id == user_id {
            rest.push(tags.last())
        } else {
            rest
        }
    }
}

proof fn lemma_tags_of_user_push(tags: Seq<TagV>, t: TagV, user_id: Seq<char>)
    ensures
        tags_of_user(tags.push(t), user_id) == if t.user_id == user_id {
            tags_of_user(tags, user_id).push(t)
        } else {
            tags_of_user(tags, user_id)
        },
{
    assert(tags.push(t).drop_last() =~= tags);
    assert(tags.push(t).last() == t);
}

/// Every listed tag is a row of the table, owned by the user; rows keep their
/// pairwise-distinct ids.
proof fn lemma_tags_of_user_props(tags: Seq<TagV>, user_id: Seq<char>)
    ensures
        tags_of_user(tags, user_id).len() <= tags.len(),
        forall|a: int|
            #![trigger tags_of_user(tags, user_id)[a]]
            0 <= a < tags_of_user(tags, user_id).len() ==> tags_of_user(tags, user_id)[a].user_id
                == user_id && exists|b: int|
                0 <= b < tags.len() && tags_of_user(tags, user_id)[a] == #[trigger] tags[b],
    decreases tags.len(),
{
    if tags.len() > 0 {
        lemma_tags_of_user_props(tags.drop_last(), user_id);
        let out = tags_of_user(tags, user_id);
        let rest = tags_of_user(tags.drop_last(), user_id);
        assert forall|a: int|
            #![trigger out[a]]
            0 <= a < out.len() implies out[a].user_id == user_id && exists|b: int|
            0 <= b < tags.len() && out[a] == #[trigger] tags[b] by {
            if a < rest.len() {
                assert(out[a] == rest[a]);
                let b = choose|b: int| 0 <= b < tags.drop_last().len() && rest[a] == #[trigger] tags.drop_last()[b];
                assert(tags[b] == tags.drop_last()[b]);
            } else {
                assert(out[a] == tags.last());
                assert(tags[tags.len() - 1] == tags.last());
            }
        }
    }
}

/// The tags of one user whose text contains the fragment, case-folded, in
/// insertion order.
pub open spec fn tags_matching(tags: Seq<TagV>, user_id: Seq<char>, frag: Seq<char>) -> Seq<TagV>
    decreases tags.len(),
{
    if tags.len() == 0 {
        Seq::empty()
    } else {
        let rest = tags_matching(tags.drop_last(), user_id, frag);
        if tags.last().user_id == user_id && fuzzy_matches(tags.last().tag, frag) {
            rest.push(tags.last())
        } else {
            rest
        }
    }
}

proof fn lemma_tags_matching_push(tags: Seq<TagV>, t: TagV, user_id: Seq<char>, frag: Seq<char>)
    ensures
        tags_matching(tags.push(t), user_id, frag) == if t.user_id == user_id && fuzzy_matches(
            t.tag,
            frag,
        ) {
            tags_matching(tags, user_id, frag).push(t)
        } else {
            tags_matching(tags, user_id, frag)
        },
{
    assert(tags.push(t).drop_last() =~= tags);
    assert(tags.push(t).last() == t);
}

// ---- ordering ----

/// Whether `a` sorts strictly before `b` for the requested direction:
/// alphabetically ascending or descending by tag text, by code point.
pub open spec fn tag_before(a: TagV, b: TagV, asc: bool) -> bool {
    if asc {
        seq_char_lt(a.tag, b.tag)
    } else {
        seq_char_lt(b.tag, a.tag)
    }
}

/// Insertion into a sorted sequence, after any rows that do not sort strictly
/// after `t`.
pub open spec fn insert_tag_sorted(t: TagV, s: Seq<TagV>, asc: bool) -> Seq<TagV>
    decreases s.len(),
{
    if s.len() == 0 {
        seq![t]
    } else if tag_before(t, s[0], asc) {
        seq![t] + s
    } else {
        seq![s[0]] + insert_tag_sorted(t, s.drop_first(), asc)
    }
}

/// Insertion sort of a tag listing; the deterministic order every sorted
/// answer of the library has.
pub open spec fn sort_tags(s: Seq<TagV>, asc: bool) -> Seq<TagV>
    decreases s.len(),
{
    if s.len() == 0 {
        Seq::empty()
    } else {
        insert_tag_sorted(s[0], sort_tags(s.drop_first(), asc), asc)
    }
}

/// Inserting at the first position whose row sorts strictly after `t` is
/// what `insert_tag_sorted` means.
proof fn lemma_insert_tag_sorted_at(t: TagV, s: Seq<TagV>, asc: bool, j: int)
    requires
        0 <= j <= s.len(),
        forall|k: int| 0 <= k < j ==> !tag_before(t, #[trigger] s[k], asc),
        j < s.len() ==> tag_before(t, s[j], asc),
    ensures
        insert_tag_sorted(t, s, asc) == s.subrange(0, j) + seq![t] + s.subrange(j, s.len() as int),
    decreases s.len(),
{
    if s.len() == 0 {
        assert(insert_tag_sorted(t, s, asc) =~= s.subrange(0, j) + seq![t] + s.subrange(
            j,
            s.len() as int,
        ));
    } else if j == 0 {
        assert(tag_before(t, s[0], asc));
        assert(seq![t] + s =~= s.subrange(0, 0) + seq![t] + s.subrange(0, s.len() as int));
    } else {
        assert(!tag_before(t, s[0], asc));
        lemma_insert_tag_sorted_at(t, s.drop_first(), asc, j - 1);
        assert(seq![s[0]] + (s.drop_first().subrange(0, j - 1) + seq![t] + s.drop_first().subrange(
            j - 1,
            s.drop_first().len() as int,
        )) =~= s.subrange(0, j) + seq![t] + s.subrange(j, s.len() as int));
    }
}

/// Inserts a tag into an already sorted vector at its sorted position.
fn insert_sorted_exec(out: &mut Vec<Tag>, t: Tag, asc: bool)
    ensures
        final(out).deep_view() == insert_tag_sorted(t@, old(out).deep_view(), asc),
{
    let n = out.len();
    let mut j: usize = 0;
    while j < n
        invariant
            n == out.len(),
            out == old(out),
            j <= n,
            forall|k: int| 0 <= k < j ==> !tag_before(t@, #[trigger] out.deep_view()[k], asc),
        ensures
            n == out.len(),
            out == old(out),
            j <= n,
            forall|k: int| 0 <= k < j ==> !tag_before(t@, #[trigger] out.deep_view()[k], asc),
            j < n ==> tag_before(t@, out.deep_view()[j as int], asc),
        decreases n - j,
    {
        let before = if asc {
            str_lt(&t.tag, &out[j].tag)
        } else {
            str_lt(&out[j].tag, &t.tag)
        };
        if before {
            break ;
        }
        j += 1;
    }
    proof {
        lemma_insert_tag_sorted_at(t@, old(out).deep_view(), asc, j as int);
    }
    out.insert(j, t);
    proof {
        assert(out.deep_view() =~= old(out).deep_view().subrange(0, j as int) + seq![t@] + old(
            out,
        ).deep_view().subrange(j as int, old(out).deep_view().len() as int));
    }
}

/// Sorts a tag listing by tag text, ascending or descending.
pub(crate) fn sort_tags_exec(v: &Vec<Tag>, asc: bool) -> (r: Vec<Tag>)
    ensures
        r.deep_view() == sort_tags(v.deep_view(), asc),
{
    let mut out: Vec<Tag> = Vec::new();
    let mut i = v.len();
    proof {
        assert(v.deep_view().skip(i as int) =~= Seq::<TagV>::empty());
    }
    while i > 0
        invariant
            i <= v.len(),
            out.deep_view() == sort_tags(v.deep_view().skip(i as int), asc),
        decreases i,
    {
        i = i - 1;
        insert_sorted_exec(&mut out, v[i].clone(), asc);
        proof {
            assert(v.deep_view().skip(i as int).drop_first() =~= v.deep_view().skip(i + 1));
            assert(v.deep_view().skip(i as int)[0] == v.deep_view()[i as int]);
        }
    }
    proof {
        assert(v.deep_view().skip(0) =~= v.deep_view());
    }
    out
}

// ---- ownership checks ----

/// Whether this tab exists and belongs to this user.
pub fn tab_belongs(store: &Store, tab_id: &String, user_id: &String) -> (r: bool)
    requires
        store@.wf(),
    ensures
        r == store@.has_tab_for(tab_id@, user_id@),
{
    store.find_tab_for(tab_id, user_id).is_some()
}

/// Whether this tag exists and belongs to this user.
pub fn tag_belongs(store: &Store, tag_id: &String, user_id: &String) -> (r: bool)
    requires
        store@.wf(),
    ensures
        r == store@.has_tag_for(tag_id@, user_id@),
{
    store.find_tag_for(tag_id, user_id).is_some()
}

// ---- operations ----

/// Inserting a tag for an existing user; an unknown owner is a storage-level
/// error. Duplicate tag text is allowed.
pub open spec fn spec_new_tag(s: StoreV, data: crate::models::tag::NewTagV) -> (StoreV, Result<
    TagV,
    AppErrorV,
>) {
    if !s.has_user_id(data.user_id) {
        (s, Err(AppErrorV::DBError))
    } else {
        let t = TagV { id: dec_digits(s.next_id), user_id: data.user_id, tag: data.tag };
        (StoreV { tags: s.tags.push(t), next_id: s.next_id + 1, ..s }, Ok(t))
    }
}

pub fn new_tag(store: &mut Store, data: NewTag) -> (r: Result<Tag, AppError>)
    requires
        old(store)@.wf(),
        old(store)@.next_id < u64::MAX,
    ensures
        final(store)@.wf(),
        ({
            let (s2, res) = spec_new_tag(old(store)@, data@);
            final(store)@ == s2 && res_v(r) == res
        }),
{
    if store.find_user_by_id(&data.user_id).is_none() {
        return Err(AppError::DBError);
    }
    let id = u64_to_string(store.next_id);
    store.next_id = store.next_id + 1;
    let row = Tag { id, user_id: data.user_id, tag: data.tag };
    let out = row.clone();
    proof {
        lemma_wf_insert_tag(old(store)@, row@);
    }
    store.tags.push(row);
    proof {
        let (s2, res) = spec_new_tag(old(store)@, data@);
        assert(store@.tags =~= s2.tags);
        assert(store@ == s2);
    }
    Ok(out)
}

// ---- cascading removal of one tag ----

/// The association rows that do not reference this tag.
pub open spec fn tab_tags_without_tag(tts: Seq<TabTagV>, tag_id: Seq<char>) -> Seq<TabTagV>
    decreases tts.len(),
{
    if tts.len() == 0 {
        Seq::empty()
    } else {
        let rest = tab_tags_without_tag(tts.drop_last(), tag_id);
        if tts.last().tag_id == tag_id {
            rest
        } else {
            rest.push(tts.last())
        }
    }
}

proof fn lemma_tab_tags_without_tag_push(tts: Seq<TabTagV>, t: TabTagV, tag_id: Seq<char>)
    ensures
        tab_tags_without_tag(tts.push(t), tag_id) == if t.tag_id == tag_id {
            tab_tags_without_tag(tts, tag_id)
        } else {
            tab_tags_without_tag(tts, tag_id).push(t)
        },
{
    assert(tts.push(t).drop_last() =~= tts);
    assert(tts.push(t).last() == t);
}

/// Every kept association is an old row that does not reference the tag,
/// and pairwise-distinct rows stay pairwise distinct.
proof fn lemma_tab_tags_without_tag_props(tts: Seq<TabTagV>, tag_id: Seq<char>)
    requires
        forall|a: int, b: int|
            #![trigger tts[a], tts[b]]
            0 <= a < b < tts.len() ==> !(tts[a].tab_id == tts[b].tab_id && tts[a].tag_id
                == tts[b].tag_id),
    ensures
        tab_tags_without_tag(tts, tag_id).len() <= tts.len(),
        forall|a: int|
            #![trigger tab_tags_without_tag(tts, tag_id)[a]]
            0 <= a < tab_tags_without_tag(tts, tag_id).len() ==> tab_tags_without_tag(
                tts,
                tag_id,
            )[a].tag_id != tag_id && exists|b: int|
                0 <= b < tts.len() && tab_tags_without_tag(tts, tag_id)[a] == #[trigger] tts[b],
        forall|a: int, b: int|
            #![trigger tab_tags_without_tag(tts, tag_id)[a], tab_tags_without_tag(tts, tag_id)[b]]
            0 <= a < b < tab_tags_without_tag(tts, tag_id).len() ==> !(tab_tags_without_tag(
                tts,
                tag_id,
            )[a].tab_id == tab_tags_without_tag(tts, tag_id)[b].tab_id && tab_tags_without_tag(
                tts,
                tag_id,
            )[a].tag_id == tab_tags_without_tag(tts, tag_id)[b].tag_id),
    decreases tts.len(),
{
    if tts.len() > 0 {
        assert forall|a: int, b: int|
            #![trigger tts.drop_last()[a], tts.drop_last()[b]]
            0 <= a < b < tts.drop_last().len() implies !(tts.drop_last()[a].tab_id
            == tts.drop_last()[b].tab_id && tts.drop_last()[a].tag_id == tts.drop_last()[
            b
        ].tag_id) by {
            assert(tts.drop_last()[a] == tts[a] && tts.drop_last()[b] == tts[b]);
        }
        lemma_tab_tags_without_tag_props(tts.drop_last(), tag_id);
        let out = tab_tags_without_tag(tts, tag_id);
        let rest = tab_tags_without_tag(tts.drop_last(), tag_id);
        assert forall|a: int|
            #![trigger out[a]]
            0 <= a < out.len() implies out[a].tag_id != tag_id && exists|b: int|
            0 <= b < tts.len() && out[a] == #[trigger] tts[b] by {
            if a < rest.len() {
                assert(out[a] == rest[a]);
                let b = choose|b: int|
                    0 <= b < tts.drop_last().len() && rest[a] == #[trigger] tts.drop_last()[b];
                assert(tts[b] == tts.drop_last()[b]);
            } else {
                assert(out[a] == tts.last());
                assert(tts[tts.len() - 1] == tts.last());
            }
        }
        assert forall|a: int, b: int|
            #![trigger out[a], out[b]]
            0 <= a < b < out.len() implies !(out[a].tab_id == out[b].tab_id && out[a].tag_id
            == out[b].tag_id) by {
            if b < rest.len() {
                assert(out[a] == rest[a] && out[b] == rest[b]);
            } else {
                assert(out[b] == tts.last());
                assert(out[a] == rest[a]);
                let c = choose|c: int|
                    0 <= c < tts.drop_last().len() && rest[a] == #[trigger] tts.drop_last()[c];
                assert(tts[c] == tts.drop_last()[c]);
                assert(tts[tts.len() - 1] == tts.last());
            }
        }
    }
}

/// Collects the association rows that survive the removal of one tag.
fn collect_tab_tags_without_tag(store: &Store, tag_id: &String) -> (r: Vec<TabTag>)
    ensures
        r.deep_view() == tab_tags_without_tag(store@.tab_tags, tag_id@),
{
    let mut out: Vec<TabTag> = Vec::new();
    let n = store.tab_tags.len();
    proof {
        assert(store@.tab_tags.subrange(0, 0) =~= Seq::<TabTagV>::empty());
        assert(out.deep_view() =~= Seq::<TabTagV>::empty());
    }
    for i in 0..n
        invariant
            n == store.tab_tags.len(),
            out.deep_view() == tab_tags_without_tag(
                store@.tab_tags.subrange(0, i as int),
                tag_id@,
            ),
    {
        proof {
            assert(store@.tab_tags.subrange(0, i + 1) =~= store@.tab_tags.subrange(0, i as int).push(
                store@.tab_tags[i as int],
            ));
            lemma_tab_tags_without_tag_push(
                store@.tab_tags.subrange(0, i as int),
                store@.tab_tags[i as int],
                tag_id@,
            );
        }
        if !(store.tab_tags[i].tag_id == *tag_id) {
            out.push(store.tab_tags[i].clone());
        }
    }
    proof {
        assert(store@.tab_tags.subrange(0, n as int) =~= store@.tab_tags);
    }
    out
}

/// The combined removal of one tag row and of every association that
/// references it keeps the store well-formed.
proof fn lemma_wf_delete_tag(s0: StoreV, i: int)
    requires
        s0.wf(),
        0 <= i < s0.tags.len(),
    ensures
        (StoreV {
            tags: s0.tags.remove(i),
            tab_tags: tab_tags_without_tag(s0.tab_tags, s0.tags[i].id),
            ..s0
        }).wf(),
{
    let tag_id = s0.tags[i].id;
    lemma_tab_tags_without_tag_props(s0.tab_tags, tag_id);
    let tts2 = tab_tags_without_tag(s0.tab_tags, tag_id);
    assert forall|a: int|
        #![trigger tts2[a]]
        0 <= a < tts2.len() implies s0.has_tab_id(tts2[a].tab_id) && s0.has_tag_id(
        tts2[a].tag_id,
    ) by {
        let c = choose|c: int| 0 <= c < s0.tab_tags.len() && tts2[a] == #[trigger] s0.tab_tags[c];
        assert(s0.has_tab_id(s0.tab_tags[c].tab_id) && s0.has_tag_id(s0.tab_tags[c].tag_id));
    }
    lemma_wf_replace_tab_tags(s0, tts2);
    let s1 = StoreV { tab_tags: tts2, ..s0 };
    assert forall|a: int|
        #![trigger s1.tab_tags[a]]
        0 <= a < s1.tab_tags.len() implies s1.tab_tags[a].tag_id != s1.tags[i].id by {
        assert(tts2[a].tag_id != tag_id);
    }
    lemma_wf_remove_tag(s1, i);
    assert(StoreV { tags: s1.tags.remove(i), ..s1 } == StoreV {
        tags: s0.tags.remove(i),
        tab_tags: tts2,
        ..s0
    });
}

/// Deleting a tag is ownership-scoped: only a tag owned by this user goes
/// away, and its association rows go with it, as one step. An absent or
/// foreign tag deletes nothing and counts zero.
pub open spec fn spec_delete_tag(s: StoreV, user_id: Seq<char>, tag_id: Seq<char>) -> (StoreV, int) {
    if s.has_tag_for(tag_id, user_id) {
        let i = s.tag_idx_for(tag_id, user_id);
        (
            StoreV {
                tags: s.tags.remove(i),
                tab_tags: tab_tags_without_tag(s.tab_tags, tag_id),
                ..s
            },
            1,
        )
    } else {
        (s, 0)
    }
}

pub fn delete_tag(store: &mut Store, user_id: String, tag_id: String) -> (r: Result<
    usize,
    AppError,
>)
    requires
        old(store)@.wf(),
    ensures
        final(store)@.wf(),
        ({
            let (s2, n) = spec_delete_tag(old(store)@, user_id@, tag_id@);
            final(store)@ == s2 && (r matches Ok(c) && c as int == n)
        }),
{
    let i = match store.find_tag_for(&tag_id, &user_id) {
        None => {
            return Ok(0);
        },
        Some(i) => i,
    };
    proof {
        let j = old(store)@.tag_idx_for(tag_id@, user_id@);
        assert(0 <= j < old(store)@.tags.len() && old(store)@.tags[j].id == tag_id@ && old(
            store,
        )@.tags[j].user_id == user_id@);
        assert(j == i as int);
    }
    let kept = collect_tab_tags_without_tag(store, &tag_id);
    store.tab_tags = kept;
    store.tags.remove(i);
    proof {
        let s0 = old(store)@;
        let (s2, n) = spec_delete_tag(s0, user_id@, tag_id@);
        assert(store@.tags =~= s2.tags);
        assert(store@ == s2);
        lemma_wf_delete_tag(s0, i as int);
    }
    Ok(1)
}

/// Attaching a tag to a tab demands that both belong to the requesting user;
/// a failed check is a credentials error, raised before anything is written.
/// Attaching an already-attached pair succeeds and changes nothing.
pub open spec fn spec_attach_tag(s: StoreV, req: crate::models::tab::TagIdTripleV) -> (StoreV, Result<
    crate::models::tab::TagIdTripleV,
    AppErrorV,
>) {
    if !(s.has_tab_for(req.tab_id, req.user_id) && s.has_tag_for(req.tag_id, req.user_id)) {
        (s, Err(AppErrorV::WrongCredentials))
    } else if s.has_tab_tag(req.tab_id, req.tag_id) {
        (s, Ok(req))
    } else {
        (
            StoreV {
                tab_tags: s.tab_tags.push(TabTagV { tab_id: req.tab_id, tag_id: req.tag_id }),
                ..s
            },
            Ok(req),
        )
    }
}

pub fn attach_tag(store: &mut Store, req: AttachTagRequest) -> (r: Result<
    TagAttachedResponse,
    AppError,
>)
    requires
        old(store)@.wf(),
    ensures
        final(store)@.wf(),
        ({
            let (s2, res) = spec_attach_tag(old(store)@, req@);
            final(store)@ == s2 && res_v(r) == res
        }),
{
    if !(tab_belongs(store, &req.tab_id, &req.user_id) && tag_belongs(
        store,
        &req.tag_id,
        &req.user_id,
    )) {
        return Err(AppError::WrongCredentials);
    }
    let resp = TagAttachedResponse {
        user_id: req.user_id,
        tab_id: req.tab_id,
        tag_id: req.tag_id,
    };
    if store.find_tab_tag(&resp.tab_id, &resp.tag_id).is_some() {
        return Ok(resp);
    }
    let row = TabTag { tab_id: resp.tab_id.clone(), tag_id: resp.tag_id.clone() };
    proof {
        let s0 = old(store)@;
        assert(s0.has_tab_id(row@.tab_id)) by {
            let w = choose|w: int|
                0 <= w < s0.tabs.len() && s0.tabs[w].id == row@.tab_id && s0.tabs[w].user_id
                    == resp@.user_id;
            assert(s0.tabs[w].id == row@.tab_id);
        }
        assert(s0.has_tag_id(row@.tag_id)) by {
            let w = choose|w: int|
                0 <= w < s0.tags.len() && s0.tags[w].id == row@.tag_id && s0.tags[w].user_id
                    == resp@.user_id;
            assert(s0.tags[w].id == row@.tag_id);
        }
        lemma_wf_insert_tab_tag(s0, row@);
    }
    store.tab_tags.push(row);
    proof {
        let (s2, res) = spec_attach_tag(old(store)@, req@);
        assert(store@.tab_tags =~= s2.tab_tags);
        assert(store@ == s2);
    }
    Ok(resp)
}

/// Detaching demands the same double ownership check; removing a pair that is
/// not attached succeeds and changes nothing.
pub open spec fn spec_detach_tag(s: StoreV, req: crate::models::tab::TagIdTripleV) -> (StoreV, Result<
    crate::models::tab::TagIdTripleV,
    AppErrorV,
>) {
    if !(s.has_tab_for(req.tab_id, req.user_id) && s.has_tag_for(req.tag_id, req.user_id)) {
        (s, Err(AppErrorV::WrongCredentials))
    } else if s.has_tab_tag(req.tab_id, req.tag_id) {
        (
            StoreV { tab_tags: s.tab_tags.remove(s.tab_tag_idx(req.tab_id, req.tag_id)), ..s },
            Ok(req),
        )
    } else {
        (s, Ok(req))
    }
}

pub fn detach_tag(store: &mut Store, req: DetachTagRequest) -> (r: Result<
    TagDetachedResponse,
    AppError,
>)
    requires
        old(store)@.wf(),
    ensures
        final(store)@.wf(),
        ({
            let (s2, res) = spec_detach_tag(old(store)@, req@);
            final(store)@ == s2 && res_v(r) == res
        }),
{
    if !(tab_belongs(store, &req.tab_id, &req.user_id) && tag_belongs(
        store,
        &req.tag_id,
        &req.user_id,
    )) {
        return Err(AppError::WrongCredentials);
    }
    let resp = TagDetachedResponse {
        user_id: req.user_id,
        tab_id: req.tab_id,
        tag_id: req.tag_id,
    };
    match store.find_tab_tag(&resp.tab_id, &resp.tag_id) {
        None => Ok(resp),
        Some(i) => {
            proof {
                let j = old(store)@.tab_tag_idx(resp.tab_id@, resp.tag_id@);
                assert(0 <= j < old(store)@.tab_tags.len() && old(store)@.tab_tags[j].tab_id
                    == resp.tab_id@ && old(store)@.tab_tags[j].tag_id == resp.tag_id@);
                assert(j == i as int);
                lemma_wf_remove_tab_tag(old(store)@, i as int);
            }
            store.tab_tags.remove(i);
            proof {
                let (s2, res) = spec_detach_tag(old(store)@, req@);
                assert(store@.tab_tags =~= s2.tab_tags);
                assert(store@ == s2);
            }
            Ok(resp)
        },
    }
}

/// Collects the tags of one user, in insertion order.
fn collect_user_tags(store: &Store, user_id: &String) -> (r: Vec<Tag>)
    ensures
        r.deep_view() == tags_of_user(store@.tags, user_id@),
{
    let mut out: Vec<Tag> = Vec::new();
    let n = store.tags.len();
    proof {
        assert(store@.tags.subrange(0, 0) =~= Seq::<TagV>::empty());
        assert(out.deep_view() =~= Seq::<TagV>::empty());
    }
    for i in 0..n
        invariant
            n == store.tags.len(),
            out.deep_view() == tags_of_user(store@.tags.subrange(0, i as int), user_id@),
    {
        proof {
            assert(store@.tags.subrange(0, i + 1) =~= store@.tags.subrange(0, i as int).push(
                store@.tags[i as int],
            ));
            lemma_tags_of_user_push(
                store@.tags.subrange(0, i as int),
                store@.tags[i as int],
                user_id@,
            );
        }
        if store.tags[i].user_id == *user_id {
            out.push(store.tags[i].clone());
        }
    }
    proof {
        assert(store@.tags.subrange(0, n as int) =~= store@.tags);
    }
    out
}

/// Clones one page out of a listing.
fn page_tags(v: &Vec<Tag>, off: i64, lim: i64) -> (r: Vec<Tag>)
    requires
        0 <= off,
        0 <= lim,
    ensures
        r.deep_view() == page_of(v.deep_view(), off as int, lim as int),
{
    let mut out: Vec<Tag> = Vec::new();
    if off as u128 >= v.len() as u128 {
        proof {
            assert(out.deep_view() =~= page_of(v.deep_view(), off as int, lim as int));
        }
        return out;
    }
    let start: usize = off as usize;
    let mut k: usize = start;
    proof {
        assert(out.deep_view() =~= v.deep_view().subrange(start as int, start as int));
    }
    while k < v.len() && ((k - start) as u128) < (lim as u128)
        invariant
            start <= k <= v.len(),
            start == off as int,
            start < v.len(),
            k - start <= lim,
            out.deep_view() == v.deep_view().subrange(start as int, k as int),
        decreases v.len() - k,
    {
        let ghost prev = out.deep_view();
        out.push(v[k].clone());
        proof {
            assert(out.deep_view().len() == prev.len() + 1);
            assert(forall|m: int| 0 <= m < prev.len() ==> out.deep_view()[m] == #[trigger] prev[m]);
            assert(out.deep_view()[prev.len() as int] == v.deep_view()[k as int]);
            assert(out.deep_view() =~~= v.deep_view().subrange(start as int, k as int + 1));
        }
        k += 1;
    }
    proof {
        if k == v.len() {
            assert(out.deep_view() =~= page_of(v.deep_view(), off as int, lim as int));
        } else {
            assert(k - start == lim);
            assert(out.deep_view() =~= page_of(v.deep_view(), off as int, lim as int));
        }
    }
    out
}

/// One page of a user's tags, ordered by tag text descending; `has_more`
/// says whether rows remain past the page. A negative page size or offset is
/// refused by the storage layer.
pub open spec fn spec_get_user_tags(s: StoreV, user_id: Seq<char>, pr: PaginationRequest) -> Result<
    PaginatedResultV<TagV>,
    AppErrorV,
> {
    let off = pr.spec_offset();
    let lim = pr.spec_limit();
    if lim < 0 || off < 0 {
        Err(AppErrorV::DBError)
    } else {
        let rows = sort_tags(tags_of_user(s.tags, user_id), false);
        Ok(
            PaginatedResultV {
                results: page_of(rows, off, lim),
                has_more: tags_of_user(s.tags, user_id).len() - off > lim,
            },
        )
    }
}

pub fn get_user_tags(store: &Store, user_id: String, pr: PaginationRequest) -> (r: Result<
    PaginatedResult<Tag>,
    AppError,
>)
    requires
        store@.wf(),
    ensures
        res_v(r) == spec_get_user_tags(store@, user_id@, pr),
{
    let off = pr.offset();
    let lim = pr.limit();
    if lim < 0 || off < 0 {
        return Err(AppError::DBError);
    }
    let mine = collect_user_tags(store, &user_id);
    let has_more = has_more_calc(mine.len(), off, lim);
    let sorted = sort_tags_exec(&mine, false);
    let results = page_tags(&sorted, off, lim);
    Ok(PaginatedResult { results, has_more })
}

/// Collects the tags of one user whose text contains the fragment.
fn collect_matching_tags(store: &Store, user_id: &String, frag: &String) -> (r: Vec<Tag>)
    ensures
        r.deep_view() == tags_matching(store@.tags, user_id@, frag@),
{
    let mut out: Vec<Tag> = Vec::new();
    let n = store.tags.len();
    proof {
        assert(store@.tags.subrange(0, 0) =~= Seq::<TagV>::empty());
        assert(out.deep_view() =~= Seq::<TagV>::empty());
    }
    for i in 0..n
        invariant
            n == store.tags.len(),
            out.deep_view() == tags_matching(store@.tags.subrange(0, i as int), user_id@, frag@),
    {
        proof {
            assert(store@.tags.subrange(0, i + 1) =~= store@.tags.subrange(0, i as int).push(
                store@.tags[i as int],
            ));
            lemma_tags_matching_push(
                store@.tags.subrange(0, i as int),
                store@.tags[i as int],
                user_id@,
                frag@,
            );
        }
        if store.tags[i].user_id == *user_id && contains_fragment(&store.tags[i].tag, frag) {
            out.push(store.tags[i].clone());
        }
    }
    proof {
        assert(store@.tags.subrange(0, n as int) =~= store@.tags);
    }
    out
}

/// The fuzzy tag search: the user's tags whose text contains the fragment
/// case-insensitively, ordered by tag text ascending, capped at ten rows.
pub open spec fn spec_get_user_tags_fuzzy(
    s: StoreV,
    user_id: Seq<char>,
    to_match: Seq<char>,
) -> Result<Seq<TagV>, AppErrorV> {
    Ok(page_of(sort_tags(tags_matching(s.tags, user_id, to_match), true), 0, 10))
}

pub fn get_user_tags_fuzzy(store: &Store, user_id: String, to_match: String) -> (r: Result<
    Vec<Tag>,
    AppError,
>)
    requires
        store@.wf(),
    ensures
        res_v(r) == spec_get_user_tags_fuzzy(store@, user_id@, to_match@),
{
    let matched = collect_matching_tags(store, &user_id, &to_match);
    let sorted = sort_tags_exec(&matched, true);
    let results = page_tags(&sorted, 0, 10);
    Ok(results)
}

/// Looks a tag up by id alone, without an ownership filter.
pub open spec fn spec_get_tag(s: StoreV, tag_id: Seq<char>) -> Result<TagV, AppErrorV> {
    if s.has_tag_id(tag_id) {
        Ok(s.tags[s.tag_idx_by_id(tag_id)])
    } else {
        Err(AppErrorV::NotFound)
    }
}

pub fn get_tag(store: &Store, tag_id: String) -> (r: Result<Tag, AppError>)
    requires
        store@.wf(),
    ensures
        res_v(r) == spec_get_tag(store@, tag_id@),
{
    match store.find_tag_by_id(&tag_id) {
        None => Err(AppError::NotFound),
        Some(i) => {
            proof {
                let j = store@.tag_idx_by_id(tag_id@);
                assert(0 <= j < store@.tags.len() && store@.tags[j].id == tag_id@);
                assert(j == i as int);
            }
            Ok(store.tags[i].clone())
        },
    }
}

/// Inserting a bare association row: both ends must exist and the pair must
/// be new, else the storage layer refuses.
pub open spec fn spec_mk_tab_tag(s: StoreV, tab_id: Seq<char>, tag_id: Seq<char>) -> (StoreV, Result<
    TabTagV,
    AppErrorV,
>) {
    if !(s.has_tab_id(tab_id) && s.has_tag_id(tag_id)) || s.has_tab_tag(tab_id, tag_id) {
        (s, Err(AppErrorV::DBError))
    } else {
        (
            StoreV { tab_tags: s.tab_tags.push(TabTagV { tab_id, tag_id }), ..s },
            Ok(TabTagV { tab_id, tag_id }),
        )
    }
}

pub fn mk_tab_tag(store: &mut Store, tab_id: String, tag_id: String) -> (r: Result<
    CreatedTabTag,
    AppError,
>)
    requires
        old(store)@.wf(),
    ensures
        final(store)@.wf(),
        ({
            let (s2, res) = spec_mk_tab_tag(old(store)@, tab_id@, tag_id@);
            final(store)@ == s2 && res_v(r) == res
        }),
{
    if store.find_tab_by_id(&tab_id).is_none() || store.find_tag_by_id(&tag_id).is_none() {
        return Err(AppError::DBError);
    }
    if store.find_tab_tag(&tab_id, &tag_id).is_some() {
        return Err(AppError::DBError);
    }
    let row = TabTag { tab_id: tab_id.clone(), tag_id: tag_id.clone() };
    proof {
        lemma_wf_insert_tab_tag(old(store)@, row@);
    }
    store.tab_tags.push(row);
    proof {
        let (s2, res) = spec_mk_tab_tag(old(store)@, tab_id@, tag_id@);
        assert(store@.tab_tags =~= s2.tab_tags);
        assert(store@ == s2);
    }
    Ok(CreatedTabTag { tab_id, tag_id })
}

/// Looks an association row up by its pair.
pub open spec fn spec_get_tab_tag(s: StoreV, tab_id: Seq<char>, tag_id: Seq<char>) -> Result<
    TabTagV,
    AppErrorV,
> {
    if s.has_tab_tag(tab_id, tag_id) {
        Ok(s.tab_tags[s.tab_tag_idx(tab_id, tag_id)])
    } else {
        Err(AppErrorV::NotFound)
    }
}

pub fn get_tab_tag(store: &Store, tab_id: String, tag_id: String) -> (r: Result<
    CreatedTabTag,
    AppError,
>)
    requires
        store@.wf(),
    ensures
        res_v(r) == spec_get_tab_tag(store@, tab_id@, tag_id@),
{
    match store.find_tab_tag(&tab_id, &tag_id) {
        None => Err(AppError::NotFound),
        Some(i) => {
            proof {
                let j = store@.tab_tag_idx(tab_id@, tag_id@);
                assert(0 <= j < store@.tab_tags.len() && store@.tab_tags[j].tab_id == tab_id@
                    && store@.tab_tags[j].tag_id == tag_id@);
                assert(j == i as int);
            }
            Ok(
                CreatedTabTag {
                    tab_id: store.tab_tags[i].tab_id.clone(),
                    tag_id: store.tab_tags[i].tag_id.clone(),
                },
            )
        },
    }
}



/// The tag rows that survive a per-user teardown: everyone else's tags.
pub open spec fn tags_without_user(tags: Seq<TagV>, user_id: Seq<char>) -> Seq<TagV>
    decreases tags.len(),
{
    if tags.len() == 0 {
        Seq::empty()
    } else {
        let rest = tags_without_user(tags.drop_last(), user_id);
        if tags.last().user_id == user_id {
            rest
        } else {
            rest.push(tags.last())
        }
    }
}

proof fn lemma_tags_without_user_push(tags: Seq<TagV>, t: TagV, user_id: Seq<char>)
    ensures
        tags_without_user(tags.push(t), user_id) == if t.user_id == user_id {
            tags_without_user(tags, user_id)
        } else {
            tags_without_user(tags, user_id).push(t)
        },
{
    assert(tags.push(t).drop_last() =~= tags);
    assert(tags.push(t).last() == t);
}

/// The kept rows are exactly the rows of other users, with pairwise-distinct
/// ids.
proof fn lemma_tags_without_user_props(tags: Seq<TagV>, user_id: Seq<char>)
    requires
        forall|a: int, b: int|
            #![trigger tags[a], tags[b]]
            0 <= a < b < tags.len() ==> tags[a].id != tags[b].id,
    ensures
        tags_without_user(tags, user_id).len() <= tags.len(),
        forall|a: int|
            #![trigger tags_without_user(tags, user_id)[a]]
            0 <= a < tags_without_user(tags, user_id).len() ==> tags_without_user(
                tags,
                user_id,
            )[a].user_id != user_id && exists|b: int|
                0 <= b < tags.len() && tags_without_user(tags, user_id)[a] == #[trigger] tags[b],
        forall|a: int, b: int|
            #![trigger tags_without_user(tags, user_id)[a], tags_without_user(tags, user_id)[b]]
            0 <= a < b < tags_without_user(tags, user_id).len() ==> tags_without_user(
                tags,
                user_id,
            )[a].id != tags_without_user(tags, user_id)[b].id,
        forall|b: int|
            #![trigger tags[b]]
            0 <= b < tags.len() && tags[b].user_id != user_id ==> exists|a: int|
                0 <= a < tags_without_user(tags, user_id).len() && tags[b]
                    == #[trigger] tags_without_user(tags, user_id)[a],
    decreases tags.len(),
{
    if tags.len() > 0 {
        assert forall|a: int, b: int|
            #![trigger tags.drop_last()[a], tags.drop_last()[b]]
            0 <= a < b < tags.drop_last().len() implies tags.drop_last()[a].id
            != tags.drop_last()[b].id by {
            assert(tags.drop_last()[a] == tags[a] && tags.drop_last()[b] == tags[b]);
        }
        lemma_tags_without_user_props(tags.drop_last(), user_id);
        let out = tags_without_user(tags, user_id);
        let rest = tags_without_user(tags.drop_last(), user_id);
        assert forall|a: int|
            #![trigger out[a]]
            0 <= a < out.len() implies out[a].user_id != user_id && exists|b: int|
            0 <= b < tags.len() && out[a] == #[trigger] tags[b] by {
            if a < rest.len() {
                assert(out[a] == rest[a]);
                let b = choose|b: int|
                    0 <= b < tags.drop_last().len() && rest[a] == #[trigger] tags.drop_last()[b];
                assert(tags[b] == tags.drop_last()[b]);
            } else {
                assert(out[a] == tags.last());
                assert(tags[tags.len() - 1] == tags.last());
            }
        }
        assert forall|a: int, b: int|
            #![trigger out[a], out[b]]
            0 <= a < b < out.len() implies out[a].id != out[b].id by {
            if b < rest.len() {
                assert(out[a] == rest[a] && out[b] == rest[b]);
            } else {
                assert(out[b] == tags.last());
                assert(out[a] == rest[a]);
                let c = choose|c: int|
                    0 <= c < tags.drop_last().len() && rest[a] == #[trigger] tags.drop_last()[c];
                assert(tags[c] == tags.drop_last()[c]);
                assert(tags[tags.len() - 1] == tags.last());
            }
        }
        assert forall|b: int|
            #![trigger tags[b]]
            0 <= b < tags.len() && tags[b].user_id != user_id implies exists|a: int|
            0 <= a < out.len() && tags[b] == #[trigger] out[a] by {
            if b < tags.len() - 1 {
                assert(tags.drop_last()[b] == tags[b]);
                let a = choose|a: int| 0 <= a < rest.len() && tags.drop_last()[b] == #[trigger] rest[a];
                assert(out[a] == rest[a]);
            } else {
                assert(tags[b] == tags.last());
                assert(out[out.len() - 1] == tags.last());
            }
        }
    }
}

/// The association rows that survive a per-user teardown of tags: those whose
/// tag is not owned by the user.
pub open spec fn tab_tags_without_tag_owner(
    s: StoreV,
    tts: Seq<TabTagV>,
    user_id: Seq<char>,
) -> Seq<TabTagV>
    decreases tts.len(),
{
    if tts.len() == 0 {
        Seq::empty()
    } else {
        let rest = tab_tags_without_tag_owner(s, tts.drop_last(), user_id);
        let tt = tts.last();
        if s.has_tag_id(tt.tag_id) && s.tags[s.tag_idx_by_id(tt.tag_id)].user_id == user_id {
            rest
        } else {
            rest.push(tt)
        }
    }
}

proof fn lemma_tab_tags_without_tag_owner_push(
    s: StoreV,
    tts: Seq<TabTagV>,
    t: TabTagV,
    user_id: Seq<char>,
)
    ensures
        tab_tags_without_tag_owner(s, tts.push(t), user_id) == if s.has_tag_id(t.tag_id)
            && s.tags[s.tag_idx_by_id(t.tag_id)].user_id == user_id {
            tab_tags_without_tag_owner(s, tts, user_id)
        } else {
            tab_tags_without_tag_owner(s, tts, user_id).push(t)
        },
{
    assert(tts.push(t).drop_last() =~= tts);
    assert(tts.push(t).last() == t);
}

/// Each kept association is an old row whose tag another user owns; rows stay
/// pairwise distinct.
proof fn lemma_tab_tags_without_tag_owner_props(s: StoreV, tts: Seq<TabTagV>, user_id: Seq<char>)
    requires
        forall|a: int, b: int|
            #![trigger tts[a], tts[b]]
            0 <= a < b < tts.len() ==> !(tts[a].tab_id == tts[b].tab_id && tts[a].tag_id
                == tts[b].tag_id),
    ensures
        forall|a: int|
            #![trigger tab_tags_without_tag_owner(s, tts, user_id)[a]]
            0 <= a < tab_tags_without_tag_owner(s, tts, user_id).len() ==> !(s.has_tag_id(
                tab_tags_without_tag_owner(s, tts, user_id)[a].tag_id,
            ) && s.tags[s.tag_idx_by_id(
                tab_tags_without_tag_owner(s, tts, user_id)[a].tag_id,
            )].user_id == user_id) && exists|b: int|
                0 <= b < tts.len() && tab_tags_without_tag_owner(s, tts, user_id)[a]
                    == #[trigger] tts[b],
        forall|a: int, b: int|
            #![trigger tab_tags_without_tag_owner(s, tts, user_id)[a], tab_tags_without_tag_owner(s, tts, user_id)[b]]
            0 <= a < b < tab_tags_without_tag_owner(s, tts, user_id).len() ==> !(
            tab_tags_without_tag_owner(s, tts, user_id)[a].tab_id == tab_tags_without_tag_owner(
                s,
                tts,
                user_id,
            )[b].tab_id && tab_tags_without_tag_owner(s, tts, user_id)[a].tag_id
                == tab_tags_without_tag_owner(s, tts, user_id)[b].tag_id),
    decreases tts.len(),
{
    if tts.len() > 0 {
        assert forall|a: int, b: int|
            #![trigger tts.drop_last()[a], tts.drop_last()[b]]
            0 <= a < b < tts.drop_last().len() implies !(tts.drop_last()[a].tab_id
            == tts.drop_last()[b].tab_id && tts.drop_last()[a].tag_id == tts.drop_last()[
            b
        ].tag_id) by {
            assert(tts.drop_last()[a] == tts[a] && tts.drop_last()[b] == tts[b]);
        }
        lemma_tab_tags_without_tag_owner_props(s, tts.drop_last(), user_id);
        let out = tab_tags_without_tag_owner(s, tts, user_id);
        let rest = tab_tags_without_tag_owner(s, tts.drop_last(), user_id);
        assert forall|a: int|
            #![trigger out[a]]
            0 <= a < out.len() implies !(s.has_tag_id(out[a].tag_id) && s.tags[s.tag_idx_by_id(
            out[a].tag_id,
        )].user_id == user_id) && exists|b: int|
            0 <= b < tts.len() && out[a] == #[trigger] tts[b] by {
            if a < rest.len() {
                assert(out[a] == rest[a]);
                let b = choose|b: int|
                    0 <= b < tts.drop_last().len() && rest[a] == #[trigger] tts.drop_last()[b];
                assert(tts[b] == tts.drop_last()[b]);
            } else {
                assert(out[a] == tts.last());
                assert(tts[tts.len() - 1] == tts.last());
            }
        }
        assert forall|a: int, b: int|
            #![trigger out[a], out[b]]
            0 <= a < b < out.len() implies !(out[a].tab_id == out[b].tab_id && out[a].tag_id
            == out[b].tag_id) by {
            if b < rest.len() {
                assert(out[a] == rest[a] && out[b] == rest[b]);
            } else {
                assert(out[b] == tts.last());
                assert(out[a] == rest[a]);
                let c = choose|c: int|
                    0 <= c < tts.drop_last().len() && rest[a] == #[trigger] tts.drop_last()[c];
                assert(tts[c] == tts.drop_last()[c]);
                assert(tts[tts.len() - 1] == tts.last());
            }
        }
    }
}

/// The per-user teardown of tags keeps the store well-formed.
#[verifier::rlimit(100)]
#[verifier::spinoff_prover]
proof fn lemma_wf_delete_user_tags(s0: StoreV, user_id: Seq<char>)
    requires
        s0.wf(),
    ensures
        spec_delete_user_tags(s0, user_id).0.wf(),
{
    lemma_tags_without_user_props(s0.tags, user_id);
    lemma_tab_tags_without_tag_owner_props(s0, s0.tab_tags, user_id);
    let tags2 = tags_without_user(s0.tags, user_id);
    let tts2 = tab_tags_without_tag_owner(s0, s0.tab_tags, user_id);
    assert forall|a: int|
        #![trigger s0.tabs[a]]
        0 <= a < s0.tabs.len() implies exists|b: int|
        0 <= b < s0.tabs.len() && s0.tabs[a] == #[trigger] s0.tabs[b] by {
        assert(0 <= a < s0.tabs.len() && s0.tabs[a] == s0.tabs[a]);
    }
    assert forall|a: int|
        #![trigger tts2[a]]
        0 <= a < tts2.len() implies (exists|b: int|
        0 <= b < s0.tabs.len() && #[trigger] s0.tabs[b].id == tts2[a].tab_id) && (exists|b: int|
        0 <= b < tags2.len() && #[trigger] tags2[b].id == tts2[a].tag_id) by {
        let c = choose|c: int| 0 <= c < s0.tab_tags.len() && tts2[a] == #[trigger] s0.tab_tags[c];
        assert(s0.has_tab_id(s0.tab_tags[c].tab_id) && s0.has_tag_id(s0.tab_tags[c].tag_id));
        let w = choose|w: int| 0 <= w < s0.tabs.len() && s0.tabs[w].id == s0.tab_tags[c].tab_id;
        assert(s0.tabs[w].id == tts2[a].tab_id);
        let w2 = choose|w: int| 0 <= w < s0.tags.len() && s0.tags[w].id == s0.tab_tags[c].tag_id;
        assert(w2 == s0.tag_idx_by_id(tts2[a].tag_id));
        assert(s0.tags[w2].user_id != user_id);
        let b = choose|b: int| 0 <= b < tags2.len() && s0.tags[w2] == #[trigger] tags2[b];
        assert(tags2[b].id == tts2[a].tag_id);
    }
    crate::store::lemma_wf_replace(s0, s0.tabs, tags2, tts2);
}

/// Per-user teardown: deletes every tag of one user, with every association
/// row that referenced one of them, and counts the removed tags.
pub open spec fn spec_delete_user_tags(s: StoreV, user_id: Seq<char>) -> (StoreV, int) {
    let tags2 = tags_without_user(s.tags, user_id);
    (
        StoreV {
            tags: tags2,
            tab_tags: tab_tags_without_tag_owner(s, s.tab_tags, user_id),
            ..s
        },
        s.tags.len() - tags2.len(),
    )
}

pub fn delete_user_tags(store: &mut Store, user_id: String) -> (r: Result<usize, AppError>)
    requires
        old(store)@.wf(),
    ensures
        final(store)@.wf(),
        ({
            let (s2, n) = spec_delete_user_tags(old(store)@, user_id@);
            final(store)@ == s2 && (r matches Ok(c) && c as int == n)
        }),
{
    let ghost s0 = store@;
    let mut kept_tags: Vec<Tag> = Vec::new();
    let total = store.tags.len();
    proof {
        assert(store@.tags.subrange(0, 0) =~= Seq::<TagV>::empty());
        assert(kept_tags.deep_view() =~= Seq::<TagV>::empty());
    }
    for i in 0..total
        invariant
            total == store.tags.len(),
            kept_tags.deep_view() == tags_without_user(store@.tags.subrange(0, i as int), user_id@),
            kept_tags.len() <= i,
    {
        proof {
            assert(store@.tags.subrange(0, i as int + 1) =~= store@.tags.subrange(0, i as int).push(
                store@.tags[i as int],
            ));
            lemma_tags_without_user_push(
                store@.tags.subrange(0, i as int),
                store@.tags[i as int],
                user_id@,
            );
        }
        if !(store.tags[i].user_id == user_id) {
            kept_tags.push(store.tags[i].clone());
        }
    }
    proof {
        assert(store@.tags.subrange(0, total as int) =~= store@.tags);
    }
    let removed = total - kept_tags.len();
    let mut kept_tts: Vec<TabTag> = Vec::new();
    let ntt = store.tab_tags.len();
    proof {
        assert(store@.tab_tags.subrange(0, 0) =~= Seq::<TabTagV>::empty());
        assert(kept_tts.deep_view() =~= Seq::<TabTagV>::empty());
    }
    for i in 0..ntt
        invariant
            store@ == s0,
            s0.wf(),
            ntt == store.tab_tags.len(),
            kept_tts.deep_view() == tab_tags_without_tag_owner(
                store@,
                store@.tab_tags.subrange(0, i as int),
                user_id@,
            ),
    {
        proof {
            assert(store@.tab_tags.subrange(0, i as int + 1) =~= store@.tab_tags.subrange(
                0,
                i as int,
            ).push(store@.tab_tags[i as int]));
            lemma_tab_tags_without_tag_owner_push(
                store@,
                store@.tab_tags.subrange(0, i as int),
                store@.tab_tags[i as int],
                user_id@,
            );
        }
        let tt = &store.tab_tags[i];
        let owned = match store.find_tag_by_id(&tt.tag_id) {
            None => {
                proof {
                    assert(store@.has_tag_id(store@.tab_tags[i as int].tag_id));
                    assert(false);
                }
                false
            },
            Some(w) => {
                proof {
                    let j = store@.tag_idx_by_id(store@.tab_tags[i as int].tag_id);
                    assert(0 <= j < store@.tags.len() && store@.tags[j].id == store@.tab_tags[
                        i as int
                    ].tag_id);
                    assert(j == w as int);
                }
                store.tags[w].user_id == user_id
            },
        };
        if !owned {
            kept_tts.push(store.tab_tags[i].clone());
        }
    }
    proof {
        assert(store@.tab_tags.subrange(0, ntt as int) =~= store@.tab_tags);
    }
    store.tags = kept_tags;
    store.tab_tags = kept_tts;
    proof {
        let (s2, n) = spec_delete_user_tags(s0, user_id@);
        assert(store@ == s2);
        lemma_wf_delete_user_tags(s0, user_id@);
    }
    Ok(removed)
}


/// The tag rows a batch insert appends: fresh counter ids, owner and text
/// from the batch, in order.
pub open spec fn created_from_new(next: nat, data: Seq<NewTagV>) -> Seq<TagV> {
    Seq::new(
        data.len(),
        |a: int| TagV { id: dec_digits((next + a) as nat), user_id: data[a].user_id, tag: data[a].tag },
    )
}

/// A batch tag insert is atomic: it checks every owner first and appends
/// nothing when one is unknown.
pub open spec fn spec_bulk_insert_tags(s: StoreV, data: Seq<NewTagV>) -> (StoreV, Result<
    Seq<TagV>,
    AppErrorV,
>) {
    if !(forall|a: int| #![trigger data[a]] 0 <= a < data.len() ==> s.has_user_id(data[a].user_id)) {
        (s, Err(AppErrorV::DBError))
    } else {
        let created = created_from_new(s.next_id, data);
        (
            StoreV { tags: s.tags + created, next_id: s.next_id + data.len(), ..s },
            Ok(created),
        )
    }
}

pub fn bulk_insert_tags(store: &mut Store, data: Vec<NewTag>) -> (r: Result<Vec<Tag>, AppError>)
    requires
        old(store)@.wf(),
        old(store)@.next_id + data@.len() <= u64::MAX,
    ensures
        final(store)@.wf(),
        ({
            let (s2, res) = spec_bulk_insert_tags(old(store)@, data.deep_view());
            final(store)@ == s2 && res_v(r) == res
        }),
{
    let ghost s0 = store@;
    let ghost datav = data.deep_view();
    let n = data.len();
    for a in 0..n
        invariant
            n == data.len(),
            datav == data.deep_view(),
            store@ == s0,
            s0.wf(),
            forall|k: int| #![trigger datav[k]] 0 <= k < a ==> store@.has_user_id(datav[k].user_id),
    {
        if store.find_user_by_id(&data[a].user_id).is_none() {
            proof {
                assert(data.deep_view()[a as int] == datav[a as int]);
                assert(!store@.has_user_id(datav[a as int].user_id));
            }
            return Err(AppError::DBError);
        }
    }
    let mut out: Vec<Tag> = Vec::new();
    proof {
        assert(store@.tags =~= s0.tags + created_from_new(s0.next_id, datav).subrange(0, 0));
        assert(out.deep_view() =~= created_from_new(s0.next_id, datav).subrange(0, 0));
    }
    for a in 0..n
        invariant
            n == data.len(),
            datav == data.deep_view(),
            store@.wf(),
            store@.tabs == s0.tabs,
            store@.users == s0.users,
            store@.sessions == s0.sessions,
            store@.invites == s0.invites,
            store@.tab_tags == s0.tab_tags,
            store@.next_id == s0.next_id + a,
            s0.next_id + n <= u64::MAX,
            store@.tags == s0.tags + created_from_new(s0.next_id, datav).subrange(0, a as int),
            out.deep_view() == created_from_new(s0.next_id, datav).subrange(0, a as int),
            forall|k: int| #![trigger datav[k]] 0 <= k < n ==> s0.has_user_id(datav[k].user_id),
    {
        let ghost scur = store@;
        let ghost prevo = out.deep_view();
        let id = u64_to_string(store.next_id);
        store.next_id = store.next_id + 1;
        let row = Tag { id, user_id: data[a].user_id.clone(), tag: data[a].tag.clone() };
        let ghost rowv = row@;
        out.push(row.clone());
        proof {
            crate::store::lemma_has_user_id_frame(s0, scur, datav[a as int].user_id);
            crate::store::lemma_wf_insert_tag(scur, rowv);
        }
        store.tags.push(row);
        proof {
            assert(store@.tags =~= StoreV { tags: scur.tags.push(rowv), ..scur }.tags);
            assert(store@ == StoreV {
                tags: scur.tags.push(rowv),
                next_id: scur.next_id + 1,
                ..scur
            });
            assert(rowv == created_from_new(s0.next_id, datav)[a as int]);
            assert(out.deep_view().len() == prevo.len() + 1);
            assert(forall|m: int| 0 <= m < prevo.len() ==> out.deep_view()[m] == #[trigger] prevo[m]);
            assert(out.deep_view()[prevo.len() as int] == rowv);
            assert(store@.tags =~~= s0.tags + created_from_new(s0.next_id, datav).subrange(
                0,
                a as int + 1,
            ));
            assert(out.deep_view() =~~= created_from_new(s0.next_id, datav).subrange(
                0,
                a as int + 1,
            ));
        }
    }
    proof {
        assert(created_from_new(s0.next_id, datav).subrange(0, n as int) =~= created_from_new(
            s0.next_id,
            datav,
        ));
    }
    Ok(out)
}

/// A batch attach is atomic: both ends of every pair must exist, no pair may
/// already be attached, and no pair may repeat within the batch; nothing is
/// written otherwise.
pub open spec fn spec_bulk_mk_tab_tags(s: StoreV, data: Seq<TabTagV>) -> (StoreV, Result<
    Seq<TabTagV>,
    AppErrorV,
>) {
    if !((forall|a: int|
        #![trigger data[a]]
        0 <= a < data.len() ==> s.has_tab_id(data[a].tab_id) && s.has_tag_id(data[a].tag_id)
            && !s.has_tab_tag(data[a].tab_id, data[a].tag_id)) && (forall|a: int, b: int|
        #![trigger data[a], data[b]]
        0 <= a < b < data.len() ==> !(data[a].tab_id == data[b].tab_id && data[a].tag_id
            == data[b].tag_id))) {
        (s, Err(AppErrorV::DBError))
    } else {
        (StoreV { tab_tags: s.tab_tags + data, ..s }, Ok(data))
    }
}

pub fn bulk_mk_tab_tags(store: &mut Store, data: Vec<NewTabTag>) -> (r: Result<
    Vec<TabTag>,
    AppError,
>)
    requires
        old(store)@.wf(),
    ensures
        final(store)@.wf(),
        ({
            let (s2, res) = spec_bulk_mk_tab_tags(old(store)@, data.deep_view());
            final(store)@ == s2 && res_v(r) == res
        }),
{
    let ghost s0 = store@;
    let ghost datav = data.deep_view();
    let n = data.len();
    for a in 0..n
        invariant
            n == data.len(),
            datav == data.deep_view(),
            store@ == s0,
            s0.wf(),
            forall|k: int|
                #![trigger datav[k]]
                0 <= k < a ==> store@.has_tab_id(datav[k].tab_id) && store@.has_tag_id(
                    datav[k].tag_id,
                ) && !store@.has_tab_tag(datav[k].tab_id, datav[k].tag_id),
            forall|k: int, l: int|
                #![trigger datav[k], datav[l]]
                0 <= k < l < a ==> !(datav[k].tab_id == datav[l].tab_id && datav[k].tag_id
                    == datav[l].tag_id),
    {
        proof {
            assert(data.deep_view()[a as int] == datav[a as int]);
        }
        if store.find_tab_by_id(&data[a].tab_id).is_none() {
            return Err(AppError::DBError);
        }
        if store.find_tag_by_id(&data[a].tag_id).is_none() {
            return Err(AppError::DBError);
        }
        if store.find_tab_tag(&data[a].tab_id, &data[a].tag_id).is_some() {
            proof {
                let j = s0.tab_tag_idx(datav[a as int].tab_id, datav[a as int].tag_id);
            }
            return Err(AppError::DBError);
        }
        for b in 0..a
            invariant
                n == data.len(),
                a < n,
                datav == data.deep_view(),
                store@ == s0,
                s0.wf(),
                forall|l: int|
                    0 <= l < b ==> !(datav[l].tab_id == datav[a as int].tab_id && #[trigger] datav[l].tag_id
                        == datav[a as int].tag_id),
        {
            if data[b].tab_id == data[a].tab_id && data[b].tag_id == data[a].tag_id {
                proof {
                    assert(datav[b as int].tab_id == datav[a as int].tab_id && datav[b as int].tag_id
                        == datav[a as int].tag_id);
                }
                return Err(AppError::DBError);
            }
        }
    }
    let mut out: Vec<TabTag> = Vec::new();
    let mut tts: Vec<TabTag> = Vec::new();
    let ntt = store.tab_tags.len();
    for i in 0..ntt
        invariant
            ntt == store.tab_tags.len(),
            tts.deep_view() == store@.tab_tags.subrange(0, i as int),
    {
        let ghost prev = tts.deep_view();
        tts.push(store.tab_tags[i].clone());
        proof {
            assert(tts.deep_view().len() == prev.len() + 1);
            assert(forall|m: int| 0 <= m < prev.len() ==> tts.deep_view()[m] == #[trigger] prev[m]);
            assert(tts.deep_view() =~~= store@.tab_tags.subrange(0, i as int + 1));
        }
    }
    proof {
        assert(store@.tab_tags.subrange(0, ntt as int) =~= s0.tab_tags);
        assert(tts.deep_view() =~= s0.tab_tags + datav.subrange(0, 0));
        assert(out.deep_view() =~= datav.subrange(0, 0));
    }
    for a in 0..n
        invariant
            n == data.len(),
            datav == data.deep_view(),
            store@ == s0,
            tts.deep_view() == s0.tab_tags + datav.subrange(0, a as int),
            out.deep_view() == datav.subrange(0, a as int),
    {
        let ghost prev = tts.deep_view();
        let ghost prevo = out.deep_view();
        let row = TabTag { tab_id: data[a].tab_id.clone(), tag_id: data[a].tag_id.clone() };
        let ghost rowv = row@;
        out.push(row.clone());
        tts.push(row);
        proof {
            assert(rowv == datav[a as int]);
            assert(tts.deep_view().len() == prev.len() + 1);
            assert(forall|m: int| 0 <= m < prev.len() ==> tts.deep_view()[m] == #[trigger] prev[m]);
            assert(tts.deep_view()[prev.len() as int] == rowv);
            assert_seqs_equal!(
                tts.deep_view() == s0.tab_tags + datav.subrange(0, a as int + 1),
                m => {
                    if m < prev.len() {
                        assert(tts.deep_view()[m] == prev[m]);
                    } else {
                        assert(tts.deep_view()[m] == rowv);
                    }
                }
            );
            assert(out.deep_view().len() == prevo.len() + 1);
            assert(forall|m: int| 0 <= m < prevo.len() ==> out.deep_view()[m] == #[trigger] prevo[m]);
            assert(out.deep_view()[prevo.len() as int] == rowv);
            assert(out.deep_view() =~~= datav.subrange(0, a as int + 1));
        }
    }
    proof {
        assert(datav.subrange(0, n as int) =~= datav);
        let tts2 = s0.tab_tags + datav;
        assert forall|a: int, b: int|
            #![trigger tts2[a], tts2[b]]
            0 <= a < b < tts2.len() implies !(tts2[a].tab_id == tts2[b].tab_id && tts2[a].tag_id
            == tts2[b].tag_id) by {
            let n0 = s0.tab_tags.len() as int;
            if a < n0 && b < n0 {
                assert(tts2[a] == s0.tab_tags[a] && tts2[b] == s0.tab_tags[b]);
            } else if a < n0 {
                assert(tts2[a] == s0.tab_tags[a] && tts2[b] == datav[b - n0]);
                if tts2[a].tab_id == tts2[b].tab_id && tts2[a].tag_id == tts2[b].tag_id {
                    assert(s0.has_tab_tag(datav[b - n0].tab_id, datav[b - n0].tag_id));
                }
            } else {
                assert(tts2[a] == datav[a - n0] && tts2[b] == datav[b - n0]);
            }
        }
        assert forall|a: int|
            #![trigger tts2[a]]
            0 <= a < tts2.len() implies s0.has_tab_id(tts2[a].tab_id) && s0.has_tag_id(
            tts2[a].tag_id,
        ) by {
            let n0 = s0.tab_tags.len() as int;
            if a >= n0 {
                assert(tts2[a] == datav[a - n0]);
            } else {
                assert(tts2[a] == s0.tab_tags[a]);
            }
        }
        crate::store::lemma_wf_replace_tab_tags(s0, tts2);
    }
    store.tab_tags = tts;
    proof {
        let (s2, res) = spec_bulk_mk_tab_tags(s0, datav);
        assert(store@.tab_tags =~= s2.tab_tags);
        assert(store@ == s2);
    }
    Ok(out)
}

/// Ownership isolation for tags: another user's tag is indistinguishable
/// from an absent one — deleting it deletes nothing.
pub proof fn lemma_tag_ownership_isolation(s: StoreV, requester: Seq<char>, tag_id: Seq<char>)
    requires
        s.wf(),
        s.has_tag_id(tag_id),
        s.tags[s.tag_idx_by_id(tag_id)].user_id != requester,
    ensures
        spec_delete_tag(s, requester, tag_id) == (s, 0int),
{
    let i = s.tag_idx_by_id(tag_id);
    assert(0 <= i < s.tags.len() && s.tags[i].id == tag_id);
    if s.has_tag_for(tag_id, requester) {
        let j = s.tag_idx_for(tag_id, requester);
        assert(0 <= j < s.tags.len() && s.tags[j].id == tag_id && s.tags[j].user_id == requester);
        assert(j == i);
    }
}

} // verus!
