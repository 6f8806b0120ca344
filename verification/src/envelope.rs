//! The decoded response envelopes: pagination metadata paired with the
//! item records of one response.

use vstd::prelude::*;

use crate::post::Post;
use crate::tag::Tag;

verus! {

/// Pagination metadata the service reports with every response.
#[derive(Clone, Copy, Debug)]
pub struct Attributes {
    pub limit: usize,
    pub offset: usize,
    pub count: usize,
}

impl Attributes {
    /// Packs the three metadata fields of one response.
    pub fn new(limit: usize, offset: usize, count: usize) -> (r: Attributes)
        ensures
            r.limit == limit,
            r.offset == offset,
            r.count == count,
    {
        Attributes { limit, offset, count }
    }
}

/// The envelope of one posts response.
#[derive(Debug)]
pub struct PostQuery {
    pub attributes: Attributes,
    pub posts: Vec<Post>,
}

impl PostQuery {
    /// Builds the envelope from a decoded body; a response without an
    /// item array carries an empty item sequence, not an error.
    pub fn new(attributes: Attributes, posts: Option<Vec<Post>>) -> (r: PostQuery)
        ensures
            r.attributes == attributes,
            posts matches Some(v) ==> r.posts == v,
            posts is None ==> r.posts@ == Seq::<Post>::empty(),
    {
        let items = match posts {
            Some(v) => v,
            None => Vec::new(),
        };
        PostQuery { attributes, posts: items }
    }
}

/// The envelope of one tags response.
#[derive(Debug)]
pub struct TagQuery {
    pub attributes: Attributes,
    pub tags: Vec<Tag>,
}

impl TagQuery {
    /// Builds the envelope from a decoded body; a response without an
    /// item array carries an empty item sequence, not an error.
    pub fn new(attributes: Attributes, tags: Option<Vec<Tag>>) -> (r: TagQuery)
        ensures
            r.attributes == attributes,
            tags matches Some(v) ==> r.tags == v,
            tags is None ==> r.tags@ == Seq::<Tag>::empty(),
    {
        let items = match tags {
            Some(v) => v,
            None => Vec::new(),
        };
        TagQuery { attributes, tags: items }
    }

    /// The first record of the envelope, if any: what an exact-name
    /// search answers.
    pub fn into_first(self) -> (r: Option<Tag>)
        ensures
            self.tags@.len() == 0 ==> r is None,
            self.tags@.len() > 0 ==> (r matches Some(t) && t == self.tags@[0]),
    {
        let mut items = self.tags;
        if items.len() == 0 {
            None
        } else {
            let ghost v = items@;
            let first = items.remove(0);
            Some(first)
        }
    }
}

} // verus!
