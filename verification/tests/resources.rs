use tmt_web::db::tabs::{bulk_insert_tabs, delete_tab as db_delete_tab, delete_user_tabs, get_tab,
    get_tab_tags, get_tab_with_tags, get_user_tabs, update_tab_and_tags};
use tmt_web::db::tags::{bulk_insert_tags, bulk_mk_tab_tags, delete_tag, delete_user_tags,
    detach_tag, get_tab_tag, get_tag, get_user_tags, mk_tab_tag, new_tag, tab_belongs, tag_belongs};
use tmt_web::db::users::new_user_confirmed;
use tmt_web::models::tab::{AttachTagRequest, DetachTagRequest, NewTab, NewTabTag, NewTabWithTags,
    RequestedNewTab, UpdateTab, UpdateTabWithTags};
use tmt_web::models::tag::{MaybeNewTag, NewTag};
use tmt_web::models::user::NewConfirmedUser;
use tmt_web::routes::tabs::{create as create_tab, create_with_tags, delete_tab};
use tmt_web::routes::tags::{attach, create as create_tag, user_tags, user_tags_fuzzy};
use tmt_web::store::Store;
use tmt_web::types::{AppError, PaginationRequest};

fn user(store: &mut Store, email: &str) -> String {
    new_user_confirmed(
        store,
        NewConfirmedUser { email: email.to_string(), password: "pw".to_string(), confirmed: true },
    )
    .expect("user creation")
    .id
}

fn a_tab(store: &mut Store, uid: &String, url: &str) -> tmt_web::models::tab::Tab {
    create_tab(
        store,
        uid,
        NewTab { user_id: uid.clone(), url: url.to_string(), notes: None },
    )
    .expect("tab creation")
}

fn a_tag(store: &mut Store, uid: &String, text: &str) -> tmt_web::models::tag::Tag {
    create_tag(store, uid, NewTag { user_id: uid.clone(), tag: text.to_string() })
        .expect("tag creation")
}

#[test]
fn test_create_tab_ok() {
    let mut store = Store::new();
    let uid = user(&mut store, "alice@example.com");
    let tab = a_tab(&mut store, &uid, "https://example.com");
    assert_eq!(tab.user_id, uid);
    assert_eq!(tab.url, "https://example.com");
    assert!(tab.notes.is_none());
    let found = get_tab(&store, uid.clone(), tab.id.clone()).expect("get");
    assert_eq!(found.id, tab.id);
}

#[test]
fn test_create_tab_wrong_user_id() {
    let mut store = Store::new();
    let uid = user(&mut store, "alice@example.com");
    let r = create_tab(
        &mut store,
        &uid,
        NewTab {
            user_id: "someone-else".to_string(),
            url: "https://example.com".to_string(),
            notes: None,
        },
    );
    assert!(matches!(r, Err(AppError::WrongCredentials)));
}

#[test]
fn test_get_tab_doesnt_exist() {
    let mut store = Store::new();
    let uid = user(&mut store, "alice@example.com");
    let r = get_tab(&store, uid, "12345".to_string());
    assert!(matches!(r, Err(AppError::NotFound)));
}

#[test]
fn test_ownership_isolation() {
    let mut store = Store::new();
    let alice = user(&mut store, "alice@example.com");
    let bob = user(&mut store, "bob@example.com");
    let bobs_tab = a_tab(&mut store, &bob, "https://bob.example.com");
    let bobs_tag = a_tag(&mut store, &bob, "private");

    // reading, updating and deleting another user's tab all answer NotFound
    let r = get_tab(&store, alice.clone(), bobs_tab.id.clone());
    assert!(matches!(r, Err(AppError::NotFound)));
    let upd = UpdateTabWithTags {
        tab: UpdateTab { url: "https://evil.example.com".to_string(), notes: None },
        tags: vec![],
    };
    let r = update_tab_and_tags(&mut store, bobs_tab.id.clone(), alice.clone(), upd);
    assert!(matches!(r, Err(AppError::NotFound)));
    let r = delete_tab(&mut store, alice.clone(), bobs_tab.id.clone());
    assert!(matches!(r, Err(AppError::NotFound)));
    // the tab is untouched
    let still = get_tab(&store, bob.clone(), bobs_tab.id.clone()).expect("bob still has it");
    assert_eq!(still.url, "https://bob.example.com");

    // a foreign tag deletes nothing, and attach refuses the pair
    let n = delete_tag(&mut store, alice.clone(), bobs_tag.id.clone()).expect("count");
    assert_eq!(n, 0);
    assert!(get_tag(&store, bobs_tag.id.clone()).is_ok());
    let alices_tab = a_tab(&mut store, &alice, "https://alice.example.com");
    let r = attach(
        &mut store,
        &alice,
        &alices_tab.id.clone(),
        AttachTagRequest {
            user_id: alice.clone(),
            tab_id: alices_tab.id.clone(),
            tag_id: bobs_tag.id.clone(),
        },
    );
    assert!(matches!(r, Err(AppError::WrongCredentials)));
}

#[test]
fn test_delete_tab_ok() {
    let mut store = Store::new();
    let uid = user(&mut store, "alice@example.com");
    let tab = a_tab(&mut store, &uid, "https://example.com");
    delete_tab(&mut store, uid.clone(), tab.id.clone()).expect("delete");
    let r = get_tab(&store, uid.clone(), tab.id.clone());
    assert!(matches!(r, Err(AppError::NotFound)));
    let r = delete_tab(&mut store, uid, tab.id);
    assert!(matches!(r, Err(AppError::NotFound)));
}

#[test]
fn test_delete_tab_detaches_tags() {
    let mut store = Store::new();
    let uid = user(&mut store, "alice@example.com");
    let tab = a_tab(&mut store, &uid, "https://example.com");
    let tag = a_tag(&mut store, &uid, "keep");
    mk_tab_tag(&mut store, tab.id.clone(), tag.id.clone()).expect("attach");
    delete_tab(&mut store, uid.clone(), tab.id.clone()).expect("delete");
    // the tag survives; the association does not
    assert!(get_tag(&store, tag.id.clone()).is_ok());
    assert!(tag_belongs(&store, &tag.id, &uid));
    assert!(!tab_belongs(&store, &tab.id, &uid));
}

#[test]
fn test_attach_detach_round() {
    let mut store = Store::new();
    let uid = user(&mut store, "alice@example.com");
    let tab = a_tab(&mut store, &uid, "https://example.com");
    let tag = a_tag(&mut store, &uid, "reading");
    let resp = attach(
        &mut store,
        &uid,
        &tab.id.clone(),
        AttachTagRequest { user_id: uid.clone(), tab_id: tab.id.clone(), tag_id: tag.id.clone() },
    )
    .expect("attach");
    assert_eq!(resp.tab_id, tab.id);
    assert_eq!(resp.tag_id, tag.id);
    let listed = get_tab_tags(&store, uid.clone(), tab.id.clone()).expect("list");
    assert_eq!(listed.len(), 1);
    assert_eq!(listed[0].tag, "reading");
    // attaching the same pair again succeeds and changes nothing
    attach(
        &mut store,
        &uid,
        &tab.id.clone(),
        AttachTagRequest { user_id: uid.clone(), tab_id: tab.id.clone(), tag_id: tag.id.clone() },
    )
    .expect("idempotent attach");
    assert_eq!(get_tab_tags(&store, uid.clone(), tab.id.clone()).expect("list").len(), 1);
    // detach, then detach again: both succeed
    detach_tag(
        &mut store,
        DetachTagRequest { user_id: uid.clone(), tab_id: tab.id.clone(), tag_id: tag.id.clone() },
    )
    .expect("detach");
    assert_eq!(get_tab_tags(&store, uid.clone(), tab.id.clone()).expect("list").len(), 0);
    detach_tag(
        &mut store,
        DetachTagRequest { user_id: uid.clone(), tab_id: tab.id.clone(), tag_id: tag.id.clone() },
    )
    .expect("detach of nothing");
}

#[test]
fn test_attach_path_mismatch() {
    let mut store = Store::new();
    let uid = user(&mut store, "alice@example.com");
    let tab = a_tab(&mut store, &uid, "https://example.com");
    let tag = a_tag(&mut store, &uid, "reading");
    let r = attach(
        &mut store,
        &uid,
        &"another-tab".to_string(),
        AttachTagRequest { user_id: uid.clone(), tab_id: tab.id.clone(), tag_id: tag.id.clone() },
    );
    assert!(matches!(r, Err(AppError::BadRequest)));
}

#[test]
fn test_update_tab_and_tags_full_replace() {
    let mut store = Store::new();
    let uid = user(&mut store, "alice@example.com");
    let tab = a_tab(&mut store, &uid, "https://old.example.com");
    let t1 = a_tag(&mut store, &uid, "alpha");
    let t2 = a_tag(&mut store, &uid, "beta");
    mk_tab_tag(&mut store, tab.id.clone(), t1.id.clone()).expect("attach alpha");
    // replace {alpha} by {beta, gamma-new}; gamma is created on the fly
    let upd = UpdateTabWithTags {
        tab: UpdateTab {
            url: "https://new.example.com".to_string(),
            notes: Some("note".to_string()),
        },
        tags: vec![
            MaybeNewTag { id: Some(t2.id.clone()), user_id: uid.clone(), tag: "beta".to_string() },
            MaybeNewTag { id: None, user_id: uid.clone(), tag: "gamma".to_string() },
        ],
    };
    let out = update_tab_and_tags(&mut store, tab.id.clone(), uid.clone(), upd).expect("update");
    assert_eq!(out.tab.url, "https://new.example.com");
    assert_eq!(out.tab.notes.as_deref(), Some("note"));
    // the reply lists the new set, alphabetically ascending
    let names: Vec<&str> = out.tags.iter().map(|t| t.tag.as_str()).collect();
    assert_eq!(names, vec!["beta", "gamma"]);
    // alpha is detached but still exists as a tag
    assert!(get_tag(&store, t1.id.clone()).is_ok());
    let listed = get_tab_tags(&store, uid.clone(), tab.id.clone()).expect("list");
    assert_eq!(listed.len(), 2);
}

#[test]
fn test_update_tab_same_tags_idempotent() {
    let mut store = Store::new();
    let uid = user(&mut store, "alice@example.com");
    let tab = a_tab(&mut store, &uid, "https://example.com");
    let t1 = a_tag(&mut store, &uid, "alpha");
    let t2 = a_tag(&mut store, &uid, "beta");
    mk_tab_tag(&mut store, tab.id.clone(), t1.id.clone()).expect("attach alpha");
    mk_tab_tag(&mut store, tab.id.clone(), t2.id.clone()).expect("attach beta");
    let before: Vec<String> = {
        let mut ids: Vec<String> =
            get_tab_tags(&store, uid.clone(), tab.id.clone()).expect("list").iter().map(|t| t.id.clone()).collect();
        ids.sort();
        ids
    };
    // update with the very same tag set, listed in the other order
    let upd = UpdateTabWithTags {
        tab: UpdateTab { url: "https://example.com".to_string(), notes: None },
        tags: vec![
            MaybeNewTag { id: Some(t2.id.clone()), user_id: uid.clone(), tag: "beta".to_string() },
            MaybeNewTag { id: Some(t1.id.clone()), user_id: uid.clone(), tag: "alpha".to_string() },
        ],
    };
    update_tab_and_tags(&mut store, tab.id.clone(), uid.clone(), upd).expect("update");
    let after: Vec<String> = {
        let mut ids: Vec<String> =
            get_tab_tags(&store, uid.clone(), tab.id.clone()).expect("list").iter().map(|t| t.id.clone()).collect();
        ids.sort();
        ids
    };
    assert_eq!(before, after);
}

#[test]
fn test_update_tab_unknown_tag_id() {
    let mut store = Store::new();
    let uid = user(&mut store, "alice@example.com");
    let tab = a_tab(&mut store, &uid, "https://example.com");
    let upd = UpdateTabWithTags {
        tab: UpdateTab { url: "https://example.com".to_string(), notes: None },
        tags: vec![MaybeNewTag { id: Some("12345".to_string()), user_id: uid.clone(), tag: "x".to_string() }],
    };
    let r = update_tab_and_tags(&mut store, tab.id.clone(), uid.clone(), upd);
    assert!(matches!(r, Err(AppError::DBError)));
}

#[test]
fn test_create_with_tags_ok() {
    let mut store = Store::new();
    let uid = user(&mut store, "alice@example.com");
    let existing = a_tag(&mut store, &uid, "old");
    let out = create_with_tags(
        &mut store,
        &uid,
        NewTabWithTags {
            tab: RequestedNewTab { url: "https://example.com".to_string(), notes: None },
            tags: vec![
                MaybeNewTag {
                    id: Some(existing.id.clone()),
                    user_id: uid.clone(),
                    tag: "old".to_string(),
                },
                MaybeNewTag { id: None, user_id: uid.clone(), tag: "fresh".to_string() },
            ],
        },
    )
    .expect("create with tags");
    assert_eq!(out.tab.user_id, uid);
    assert_eq!(out.tags.len(), 2);
    assert_eq!(out.tags[0].tag, "old");
    assert_eq!(out.tags[1].tag, "fresh");
    let with = get_tab_with_tags(&store, uid.clone(), out.tab.id.clone()).expect("read back");
    assert_eq!(with.tags.len(), 2);
}

#[test]
fn test_get_user_tabs_pagination() {
    let mut store = Store::new();
    let uid = user(&mut store, "alice@example.com");
    for i in 0..47 {
        a_tab(&mut store, &uid, &format!("https://example.com/{}", i));
    }
    // page 8 of size 5 shows offset 35: newest-first, that is tabs 11 down to 7
    let page = get_user_tabs(
        &store,
        uid.clone(),
        PaginationRequest { page: Some(8), page_size: Some(5) },
    )
    .expect("page");
    assert_eq!(page.results.len(), 5);
    // 47 - 35 = 12 rows lie at or past the offset, more than one page of 5
    assert!(page.has_more);
    let urls: Vec<&str> = page.results.iter().map(|t| t.url.as_str()).collect();
    assert_eq!(
        urls,
        vec![
            "https://example.com/11",
            "https://example.com/10",
            "https://example.com/9",
            "https://example.com/8",
            "https://example.com/7",
        ]
    );
    // the last partial page reports nothing further
    let last = get_user_tabs(
        &store,
        uid.clone(),
        PaginationRequest { page: Some(10), page_size: Some(5) },
    )
    .expect("last page");
    assert_eq!(last.results.len(), 2);
    assert!(!last.has_more);
    // a page past the end is empty, with has_more off
    let past = get_user_tabs(
        &store,
        uid.clone(),
        PaginationRequest { page: Some(11), page_size: Some(5) },
    )
    .expect("past end");
    assert_eq!(past.results.len(), 0);
    assert!(!past.has_more);
    // an earlier page still reports more rows
    let first = get_user_tabs(
        &store,
        uid.clone(),
        PaginationRequest { page: Some(1), page_size: Some(5) },
    )
    .expect("first page");
    assert_eq!(first.results.len(), 5);
    assert!(first.has_more);
    assert_eq!(first.results[0].url, "https://example.com/46");
    // defaults: page 1, size 25
    let defaults = get_user_tabs(&store, uid.clone(), PaginationRequest { page: None, page_size: None })
        .expect("defaults");
    assert_eq!(defaults.results.len(), 25);
    assert!(defaults.has_more);
}

#[test]
fn test_pagination_request_arithmetic() {
    let pr = PaginationRequest { page: Some(8), page_size: Some(5) };
    assert_eq!(pr.limit(), 5);
    assert_eq!(pr.page(), 8);
    assert_eq!(pr.offset(), 35);
    let d = PaginationRequest { page: None, page_size: None };
    assert_eq!(d.limit(), 25);
    assert_eq!(d.page(), 1);
    assert_eq!(d.offset(), 0);
}

#[test]
fn test_get_user_tags_desc_order() {
    let mut store = Store::new();
    let uid = user(&mut store, "alice@example.com");
    a_tag(&mut store, &uid, "apple");
    a_tag(&mut store, &uid, "cherry");
    a_tag(&mut store, &uid, "banana");
    let page = user_tags(
        &store,
        uid.clone(),
        &uid,
        PaginationRequest { page: None, page_size: None },
    )
    .expect("listing");
    let names: Vec<&str> = page.results.iter().map(|t| t.tag.as_str()).collect();
    assert_eq!(names, vec!["cherry", "banana", "apple"]);
    assert!(!page.has_more);
}

#[test]
fn test_user_tags_wrong_user() {
    let mut store = Store::new();
    let alice = user(&mut store, "alice@example.com");
    let bob = user(&mut store, "bob@example.com");
    let r = user_tags(&store, alice, &bob, PaginationRequest { page: None, page_size: None });
    assert!(matches!(r, Err(AppError::WrongCredentials)));
}

#[test]
fn test_fuzzy_search() {
    let mut store = Store::new();
    let uid = user(&mut store, "alice@example.com");
    for t in ["a bug", "a dog", "dog", "doggy", "dont"] {
        a_tag(&mut store, &uid, t);
    }
    let found = user_tags_fuzzy(&store, uid.clone(), &uid, "dog".to_string()).expect("search");
    let names: Vec<&str> = found.matches.iter().map(|t| t.tag.as_str()).collect();
    assert_eq!(names, vec!["a dog", "dog", "doggy"]);
}

#[test]
fn test_fuzzy_search_case_insensitive() {
    let mut store = Store::new();
    let uid = user(&mut store, "alice@example.com");
    a_tag(&mut store, &uid, "DOGma");
    a_tag(&mut store, &uid, "cat");
    let found = user_tags_fuzzy(&store, uid.clone(), &uid, "dog".to_string()).expect("search");
    assert_eq!(found.matches.len(), 1);
    assert_eq!(found.matches[0].tag, "DOGma");
}

#[test]
fn test_fuzzy_search_fragment_bounds() {
    let mut store = Store::new();
    let uid = user(&mut store, "alice@example.com");
    a_tag(&mut store, &uid, "dog");
    let r = user_tags_fuzzy(&store, uid.clone(), &uid, "d".to_string());
    assert!(matches!(r, Err(AppError::BadRequest)));
    let r = user_tags_fuzzy(&store, uid.clone(), &uid, "d".repeat(31));
    assert!(matches!(r, Err(AppError::BadRequest)));
    // the bounds themselves are allowed
    assert!(user_tags_fuzzy(&store, uid.clone(), &uid, "dog".to_string()).is_ok());
    assert!(user_tags_fuzzy(&store, uid.clone(), &uid, "d".repeat(20)).is_ok());
}

#[test]
fn test_fuzzy_search_cap_and_order() {
    let mut store = Store::new();
    let uid = user(&mut store, "alice@example.com");
    for i in 0..12 {
        a_tag(&mut store, &uid, &format!("dog-{:02}", i));
    }
    let found = user_tags_fuzzy(&store, uid.clone(), &uid, "dog".to_string()).expect("search");
    assert_eq!(found.matches.len(), 10);
    assert_eq!(found.matches[0].tag, "dog-00");
    assert_eq!(found.matches[9].tag, "dog-09");
}

#[test]
fn test_delete_tag_cascades() {
    let mut store = Store::new();
    let uid = user(&mut store, "alice@example.com");
    let tab = a_tab(&mut store, &uid, "https://example.com");
    let tag = a_tag(&mut store, &uid, "gone");
    mk_tab_tag(&mut store, tab.id.clone(), tag.id.clone()).expect("attach");
    let n = delete_tag(&mut store, uid.clone(), tag.id.clone()).expect("delete");
    assert_eq!(n, 1);
    assert!(matches!(get_tag(&store, tag.id.clone()), Err(AppError::NotFound)));
    assert_eq!(get_tab_tags(&store, uid.clone(), tab.id.clone()).expect("list").len(), 0);
}

#[test]
fn test_negative_page_size_refused() {
    let mut store = Store::new();
    let uid = user(&mut store, "alice@example.com");
    let r = get_user_tabs(
        &store,
        uid.clone(),
        PaginationRequest { page: Some(1), page_size: Some(-5) },
    );
    assert!(matches!(r, Err(AppError::DBError)));
    let r = get_user_tags(
        &store,
        uid.clone(),
        PaginationRequest { page: Some(-3), page_size: Some(5) },
    );
    assert!(matches!(r, Err(AppError::DBError)));
}

#[test]
fn test_db_delete_tab_counts() {
    let mut store = Store::new();
    let uid = user(&mut store, "alice@example.com");
    let tab = a_tab(&mut store, &uid, "https://example.com");
    assert_eq!(db_delete_tab(&mut store, uid.clone(), tab.id.clone()).expect("first"), 1);
    assert_eq!(db_delete_tab(&mut store, uid.clone(), tab.id.clone()).expect("second"), 0);
}

#[test]
fn test_new_tag_unknown_user() {
    let mut store = Store::new();
    let r = new_tag(
        &mut store,
        NewTag { user_id: "missing".to_string(), tag: "x".to_string() },
    );
    assert!(matches!(r, Err(AppError::DBError)));
}

#[test]
fn test_delete_user_tabs_teardown() {
    let mut store = Store::new();
    let alice = user(&mut store, "alice@example.com");
    let bob = user(&mut store, "bob@example.com");
    let a1 = a_tab(&mut store, &alice, "https://a.example.com/1");
    a_tab(&mut store, &alice, "https://a.example.com/2");
    let b1 = a_tab(&mut store, &bob, "https://b.example.com/1");
    let tag = a_tag(&mut store, &alice, "kept");
    mk_tab_tag(&mut store, a1.id.clone(), tag.id.clone()).expect("attach");
    let n = delete_user_tabs(&mut store, alice.clone()).expect("teardown");
    assert_eq!(n, 2);
    assert!(matches!(get_tab(&store, alice.clone(), a1.id.clone()), Err(AppError::NotFound)));
    assert!(get_tab(&store, bob.clone(), b1.id.clone()).is_ok());
    // the association went with the tab; the tag itself stays
    assert!(matches!(get_tab_tag(&store, a1.id.clone(), tag.id.clone()), Err(AppError::NotFound)));
    assert!(get_tag(&store, tag.id.clone()).is_ok());
}

#[test]
fn test_delete_user_tags_teardown() {
    let mut store = Store::new();
    let alice = user(&mut store, "alice@example.com");
    let bob = user(&mut store, "bob@example.com");
    let tab = a_tab(&mut store, &alice, "https://a.example.com");
    let t1 = a_tag(&mut store, &alice, "mine");
    let t2 = a_tag(&mut store, &bob, "his");
    mk_tab_tag(&mut store, tab.id.clone(), t1.id.clone()).expect("attach");
    let n = delete_user_tags(&mut store, alice.clone()).expect("teardown");
    assert_eq!(n, 1);
    assert!(matches!(get_tag(&store, t1.id.clone()), Err(AppError::NotFound)));
    assert!(get_tag(&store, t2.id.clone()).is_ok());
    assert_eq!(get_tab_tags(&store, alice.clone(), tab.id.clone()).expect("list").len(), 0);
}

#[test]
fn test_bulk_insert_tags_atomic() {
    let mut store = Store::new();
    let uid = user(&mut store, "alice@example.com");
    let rows = bulk_insert_tags(
        &mut store,
        vec![
            NewTag { user_id: uid.clone(), tag: "one".to_string() },
            NewTag { user_id: uid.clone(), tag: "two".to_string() },
        ],
    )
    .expect("batch");
    assert_eq!(rows.len(), 2);
    assert_eq!(rows[0].tag, "one");
    assert_eq!(rows[1].tag, "two");
    assert_ne!(rows[0].id, rows[1].id);
    // one unknown owner fails the whole batch
    let r = bulk_insert_tags(
        &mut store,
        vec![
            NewTag { user_id: uid.clone(), tag: "three".to_string() },
            NewTag { user_id: "missing".to_string(), tag: "four".to_string() },
        ],
    );
    assert!(matches!(r, Err(AppError::DBError)));
    let listing = get_user_tags(
        &store,
        uid.clone(),
        PaginationRequest { page: None, page_size: None },
    )
    .expect("listing");
    assert_eq!(listing.results.len(), 2);
}

#[test]
fn test_bulk_insert_tabs() {
    let mut store = Store::new();
    let uid = user(&mut store, "alice@example.com");
    let rows = bulk_insert_tabs(
        &mut store,
        vec![
            NewTab { user_id: uid.clone(), url: "https://one.example.com".to_string(), notes: None },
            NewTab {
                user_id: uid.clone(),
                url: "https://two.example.com".to_string(),
                notes: Some("n".to_string()),
            },
        ],
    )
    .expect("batch");
    assert_eq!(rows.len(), 2);
    assert!(get_tab(&store, uid.clone(), rows[1].id.clone()).is_ok());
}

#[test]
fn test_bulk_mk_tab_tags_atomic() {
    let mut store = Store::new();
    let uid = user(&mut store, "alice@example.com");
    let tab = a_tab(&mut store, &uid, "https://example.com");
    let t1 = a_tag(&mut store, &uid, "one");
    let t2 = a_tag(&mut store, &uid, "two");
    let made = bulk_mk_tab_tags(
        &mut store,
        vec![
            NewTabTag { tab_id: tab.id.clone(), tag_id: t1.id.clone() },
            NewTabTag { tab_id: tab.id.clone(), tag_id: t2.id.clone() },
        ],
    )
    .expect("batch");
    assert_eq!(made.len(), 2);
    assert_eq!(get_tab_tags(&store, uid.clone(), tab.id.clone()).expect("list").len(), 2);
    // a pair repeated within the batch fails the whole batch
    let t3 = a_tag(&mut store, &uid, "three");
    let r = bulk_mk_tab_tags(
        &mut store,
        vec![
            NewTabTag { tab_id: tab.id.clone(), tag_id: t3.id.clone() },
            NewTabTag { tab_id: tab.id.clone(), tag_id: t3.id.clone() },
        ],
    );
    assert!(matches!(r, Err(AppError::DBError)));
    assert_eq!(get_tab_tags(&store, uid.clone(), tab.id.clone()).expect("list").len(), 2);
    // an already attached pair fails too
    let r = bulk_mk_tab_tags(
        &mut store,
        vec![NewTabTag { tab_id: tab.id.clone(), tag_id: t1.id.clone() }],
    );
    assert!(matches!(r, Err(AppError::DBError)));
}
