use crate::models::tag::{MaybeNewTag, MaybeNewTagV, Tag, TagV};
use vstd::prelude::*;

verus! {

pub struct TabV {
    pub id: Seq<char>,
    pub user_id: Seq<char>,
    pub url: Seq<char>,
    pub notes: Option<Seq<char>>,
}

/// A saved bookmark: a URL with optional notes, owned by exactly one user.
#[derive(Debug)]
pub struct Tab {
    pub id: String,
    pub user_id: String,
    pub url: String,
    pub notes: Option<String>,
}

impl View for Tab {
    type V = TabV;

    open spec fn view(&self) -> TabV {
        TabV { id: self.id@, user_id: self.user_id@, url: self.url@, notes: self.notes.deep_view() }
    }
}

impl DeepView for Tab {
    type V = TabV;

    open spec fn deep_view(&self) -> TabV {
        self.view()
    }
}

impl Clone for Tab {
    fn clone(&self) -> (r: Self)
        ensures
            r@ == self@,
    {
        Tab {
            id: self.id.clone(),
            user_id: self.user_id.clone(),
            url: self.url.clone(),
            notes: match &self.notes {
                Some(n) => Some(n.clone()),
                None => None,
            },
        }
    }
}

pub struct NewTabV {
    pub user_id: Seq<char>,
    pub url: Seq<char>,
    pub notes: Option<Seq<char>>,
}

#[derive(Debug)]
pub struct NewTab {
    pub user_id: String,
    pub url: String,
    pub notes: Option<String>,
}

impl View for NewTab {
    type V = NewTabV;

    open spec fn view(&self) -> NewTabV {
        NewTabV { user_id: self.user_id@, url: self.url@, notes: self.notes.deep_view() }
    }
}

impl DeepView for NewTab {
    type V = NewTabV;

    open spec fn deep_view(&self) -> NewTabV {
        self.view()
    }
}

pub struct TabTagV {
    pub tab_id: Seq<char>,
    pub tag_id: Seq<char>,
}

/// One row of the tab-tag association; the pair is the key.
#[derive(Debug)]
pub struct TabTag {
    pub tab_id: String,
    pub tag_id: String,
}

impl View for TabTag {
    type V = TabTagV;

    open spec fn view(&self) -> TabTagV {
        TabTagV { tab_id: self.tab_id@, tag_id: self.tag_id@ }
    }
}

impl DeepView for TabTag {
    type V = TabTagV;

    open spec fn deep_view(&self) -> TabTagV {
        self.view()
    }
}

impl Clone for TabTag {
    fn clone(&self) -> (r: Self)
        ensures
            r@ == self@,
    {
        TabTag { tab_id: self.tab_id.clone(), tag_id: self.tag_id.clone() }
    }
}

#[derive(Debug)]
pub struct NewTabTag {
    pub tab_id: String,
    pub tag_id: String,
}

impl View for NewTabTag {
    type V = TabTagV;

    open spec fn view(&self) -> TabTagV {
        TabTagV { tab_id: self.tab_id@, tag_id: self.tag_id@ }
    }
}

impl DeepView for NewTabTag {
    type V = TabTagV;

    open spec fn deep_view(&self) -> TabTagV {
        self.view()
    }
}

#[derive(Debug)]
pub struct CreatedTabTag {
    pub tab_id: String,
    pub tag_id: String,
}

impl View for CreatedTabTag {
    type V = TabTagV;

    open spec fn view(&self) -> TabTagV {
        TabTagV { tab_id: self.tab_id@, tag_id: self.tag_id@ }
    }
}

impl DeepView for CreatedTabTag {
    type V = TabTagV;

    open spec fn deep_view(&self) -> TabTagV {
        self.view()
    }
}

pub struct TabWithTagsV {
    pub tab: TabV,
    pub tags: Seq<TagV>,
}

#[derive(Debug)]
pub struct TabWithTags {
    pub tab: Tab,
    pub tags: Vec<Tag>,
}

impl View for TabWithTags {
    type V = TabWithTagsV;

    open spec fn view(&self) -> TabWithTagsV {
        TabWithTagsV { tab: self.tab@, tags: self.tags.deep_view() }
    }
}

impl DeepView for TabWithTags {
    type V = TabWithTagsV;

    open spec fn deep_view(&self) -> TabWithTagsV {
        self.view()
    }
}

pub struct RequestedNewTabV {
    pub url: Seq<char>,
    pub notes: Option<Seq<char>>,
}

/// The scalar part of a tab create or update request; the owner is taken from
/// the session, never from the body.
#[derive(Debug)]
pub struct RequestedNewTab {
    pub url: String,
    pub notes: Option<String>,
}

impl View for RequestedNewTab {
    type V = RequestedNewTabV;

    open spec fn view(&self) -> RequestedNewTabV {
        RequestedNewTabV { url: self.url@, notes: self.notes.deep_view() }
    }
}

pub struct NewTabWithTagsV {
    pub tab: RequestedNewTabV,
    pub tags: Seq<MaybeNewTagV>,
}

#[derive(Debug)]
pub struct NewTabWithTags {
    pub tab: RequestedNewTab,
    pub tags: Vec<MaybeNewTag>,
}

impl View for NewTabWithTags {
    type V = NewTabWithTagsV;

    open spec fn view(&self) -> NewTabWithTagsV {
        NewTabWithTagsV { tab: self.tab@, tags: self.tags.deep_view() }
    }
}

pub struct UpdateTabV {
    pub url: Seq<char>,
    pub notes: Option<Seq<char>>,
}

#[derive(Debug)]
pub struct UpdateTab {
    pub url: String,
    pub notes: Option<String>,
}

impl View for UpdateTab {
    type V = UpdateTabV;

    open spec fn view(&self) -> UpdateTabV {
        UpdateTabV { url: self.url@, notes: self.notes.deep_view() }
    }
}

pub struct UpdateTabWithTagsV {
    pub tab: UpdateTabV,
    pub tags: Seq<MaybeNewTagV>,
}

/// A full-replace update: the tab's scalar fields and the complete tag set
/// that shall be attached afterwards.
#[derive(Debug)]
pub struct UpdateTabWithTags {
    pub tab: UpdateTab,
    pub tags: Vec<MaybeNewTag>,
}

impl View for UpdateTabWithTags {
    type V = UpdateTabWithTagsV;

    open spec fn view(&self) -> UpdateTabWithTagsV {
        UpdateTabWithTagsV { tab: self.tab@, tags: self.tags.deep_view() }
    }
}

pub struct TagIdTripleV {
    pub user_id: Seq<char>,
    pub tab_id: Seq<char>,
    pub tag_id: Seq<char>,
}

#[derive(Debug)]
pub struct AttachTagRequest {
    pub user_id: String,
    pub tab_id: String,
    pub tag_id: String,
}

impl View for AttachTagRequest {
    type V = TagIdTripleV;

    open spec fn view(&self) -> TagIdTripleV {
        TagIdTripleV { user_id: self.user_id@, tab_id: self.tab_id@, tag_id: self.tag_id@ }
    }
}

#[derive(Debug)]
pub struct TagAttachedResponse {
    pub user_id: String,
    pub tab_id: String,
    pub tag_id: String,
}

impl View for TagAttachedResponse {
    type V = TagIdTripleV;

    open spec fn view(&self) -> TagIdTripleV {
        TagIdTripleV { user_id: self.user_id@, tab_id: self.tab_id@, tag_id: self.tag_id@ }
    }
}

impl DeepView for TagAttachedResponse {
    type V = TagIdTripleV;

    open spec fn deep_view(&self) -> TagIdTripleV {
        self.view()
    }
}

#[derive(Debug)]
pub struct DetachTagRequest {
    pub user_id: String,
    pub tab_id: String,
    pub tag_id: String,
}

impl View for DetachTagRequest {
    type V = TagIdTripleV;

    open spec fn view(&self) -> TagIdTripleV {
        TagIdTripleV { user_id: self.user_id@, tab_id: self.tab_id@, tag_id: self.tag_id@ }
    }
}

#[derive(Debug)]
pub struct TagDetachedResponse {
    pub user_id: String,
    pub tab_id: String,
    pub tag_id: String,
}

impl View for TagDetachedResponse {
    type V = TagIdTripleV;

    open spec fn view(&self) -> TagIdTripleV {
        TagIdTripleV { user_id: self.user_id@, tab_id: self.tab_id@, tag_id: self.tag_id@ }
    }
}

impl DeepView for TagDetachedResponse {
    type V = TagIdTripleV;

    open spec fn deep_view(&self) -> TagIdTripleV {
        self.view()
    }
}

} // verus!
