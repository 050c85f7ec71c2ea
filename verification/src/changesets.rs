//! Changesets: the entries of a changeset dump.
use vstd::prelude::*;
use crate::objects::{
    lemma_tag_index, spec_set_tag, spec_tag, tag_in, tag_index, tag_views, TagView,
};
use crate::timestamp::TimestampFormat;

verus! {

/// A single OSM changeset entry
///
/// fields match the XML attributes
#[derive(Debug, Clone)]
pub struct Changeset {
    pub id: u32,
    pub created: TimestampFormat,
    pub closed: Option<TimestampFormat>,
    pub open: bool,
    pub uid: Option<i64>,
    pub user: Option<String>,
    /// The tags of the changeset: a list in which no key occurs twice.
    pub tags: Vec<(String, String)>,
    pub num_changes: u64,
    pub comments_count: u64,
}

/// Whether no key occurs twice in a list of tags.
pub open spec fn keys_are_unique(tags: Seq<TagView>) -> bool {
    forall|i: int, j: int| 0 <= i < j < tags.len() ==> (#[trigger] tags[i]).0 != (#[trigger] tags[j]).0
}

/// Giving a key a value keeps the keys of a list unique.
pub proof fn lemma_set_tag_keeps_keys_unique(tags: Seq<TagView>, key: Seq<char>, value: Seq<char>)
    requires
        keys_are_unique(tags),
    ensures
        keys_are_unique(spec_set_tag(tags, key, value)),
{
    lemma_tag_index(tags, key);
    let after = spec_set_tag(tags, key, value);
    match tag_index(tags, key) {
        Some(at) => {
            assert forall|i: int, j: int| 0 <= i < j < after.len() implies (#[trigger] after[i]).0
                != (#[trigger] after[j]).0 by {
                assert(after[i].0 == tags[i].0);
                assert(after[j].0 == tags[j].0);
            }
        },
        None => {
            assert forall|i: int, j: int| 0 <= i < j < after.len() implies (#[trigger] after[i]).0
                != (#[trigger] after[j]).0 by {
                if j < tags.len() {
                    assert(after[i] == tags[i]);
                    assert(after[j] == tags[j]);
                } else {
                    assert(after[i] == tags[i]);
                }
            }
        },
    }
}

impl Changeset {
    /// The tags of the changeset.
    pub open spec fn tag_list(&self) -> Seq<TagView> {
        tag_views(self.tags@)
    }

    /// The value of the tag with the given key.
    pub fn tag(&self, key: &str) -> (r: Option<&str>)
        ensures
            match r {
                Some(value) => spec_tag(self.tag_list(), key@) == Some(value@),
                None => spec_tag(self.tag_list(), key@) is None,
            },
    {
        tag_in(&self.tags, key)
    }

    /// Whether a tag has the given key.
    pub fn has_tag(&self, key: &str) -> (r: bool)
        ensures
            r == spec_tag(self.tag_list(), key@) is Some,
    {
        self.tag(key).is_some()
    }

    /// The number of tags.
    pub fn num_tags(&self) -> (r: usize)
        ensures
            r == self.tag_list().len(),
    {
        self.tags.len()
    }

    /// True iff this object has tags
    pub fn tagged(&self) -> (r: bool)
        ensures
            r == (self.tag_list().len() > 0),
    {
        !self.untagged()
    }

    /// True iff this object has no tags
    pub fn untagged(&self) -> (r: bool)
        ensures
            r == (self.tag_list().len() == 0),
    {
        self.num_tags() == 0
    }

    /// A mutable reference to the tags. What is done through it is the
    /// caller's: the changeset keeps whatever list is left there.
    pub fn tags_mut(&mut self) -> (r: &mut Vec<(String, String)>)
        ensures
            *r == old(self).tags,
            final(self).tags == *final(r),
            final(self).id == old(self).id,
            final(self).created == old(self).created,
            final(self).closed == old(self).closed,
            final(self).open == old(self).open,
            final(self).uid == old(self).uid,
            final(self).user == old(self).user,
            final(self).num_changes == old(self).num_changes,
            final(self).comments_count == old(self).comments_count,
    {
        &mut self.tags
    }

    /// Gives the tags and drops the rest.
    pub fn into_tags(self) -> (r: Vec<(String, String)>)
        ensures
            r == self.tags,
    {
        self.tags
    }
}

} // verus!
