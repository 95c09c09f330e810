use vstd::prelude::*;

verus! {

pub struct TagV {
    pub id: Seq<char>,
    pub user_id: Seq<char>,
    pub tag: Seq<char>,
}

/// A user-defined label. Owned by exactly one user; the same label text may
/// exist several times, even for one user.
#[derive(Debug)]
pub struct Tag {
    pub id: String,
    pub user_id: String,
    pub tag: String,
}

impl View for Tag {
    type V = TagV;

    open spec fn view(&self) -> TagV {
        TagV { id: self.id@, user_id: self.user_id@, tag: self.tag@ }
    }
}

impl DeepView for Tag {
    type V = TagV;

    open spec fn deep_view(&self) -> TagV {
        self.view()
    }
}

impl Clone for Tag {
    fn clone(&self) -> (r: Self)
        ensures
            r@ == self@,
    {
        Tag { id: self.id.clone(), user_id: self.user_id.clone(), tag: self.tag.clone() }
    }
}

pub struct NewTagV {
    pub user_id: Seq<char>,
    pub tag: Seq<char>,
}

#[derive(Debug)]
pub struct NewTag {
    pub user_id: String,
    pub tag: String,
}

impl View for NewTag {
    type V = NewTagV;

    open spec fn view(&self) -> NewTagV {
        NewTagV { user_id: self.user_id@, tag: self.tag@ }
    }
}

impl DeepView for NewTag {
    type V = NewTagV;

    open spec fn deep_view(&self) -> NewTagV {
        self.view()
    }
}

pub struct MatchedTagsV {
    pub matches: Seq<TagV>,
}

#[derive(Debug)]
pub struct MatchedTags {
    pub matches: Vec<Tag>,
}

impl View for MatchedTags {
    type V = MatchedTagsV;

    open spec fn view(&self) -> MatchedTagsV {
        MatchedTagsV { matches: self.matches.deep_view() }
    }
}

impl DeepView for MatchedTags {
    type V = MatchedTagsV;

    open spec fn deep_view(&self) -> MatchedTagsV {
        self.view()
    }
}

impl MatchedTags {
    pub fn new(matches: Vec<Tag>) -> (r: Self)
        ensures
            r@.matches == matches.deep_view(),
    {
        Self { matches }
    }
}

pub struct MaybeNewTagV {
    pub id: Option<Seq<char>>,
    pub user_id: Seq<char>,
    pub tag: Seq<char>,
}

/// One entry of a requested tag set: an existing tag referenced by id, or a
/// tag to create when `id` is `None`.
#[derive(Debug)]
pub struct MaybeNewTag {
    pub id: Option<String>,
    pub user_id: String,
    pub tag: String,
}

impl View for MaybeNewTag {
    type V = MaybeNewTagV;

    open spec fn view(&self) -> MaybeNewTagV {
        MaybeNewTagV { id: self.id.deep_view(), user_id: self.user_id@, tag: self.tag@ }
    }
}

impl DeepView for MaybeNewTag {
    type V = MaybeNewTagV;

    open spec fn deep_view(&self) -> MaybeNewTagV {
        self.view()
    }
}

impl Clone for MaybeNewTag {
    fn clone(&self) -> (r: Self)
        ensures
            r@ == self@,
    {
        MaybeNewTag {
            id: match &self.id {
                Some(i) => Some(i.clone()),
                None => None,
            },
            user_id: self.user_id.clone(),
            tag: self.tag.clone(),
        }
    }
}

} // verus!
