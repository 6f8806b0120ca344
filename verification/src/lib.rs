//! Typed client library for an imageboard web API: request builders for the
//! posts and tags endpoints, query-string assembly, and the mapping of raw
//! wire records into typed domain values.

use vstd::prelude::*;

pub mod auth;
pub mod datetime;
pub mod envelope;
pub mod error;
pub mod post;
pub mod query;
pub mod tag;
pub mod text;

pub use auth::AuthDetails;
pub use datetime::DateStamp;
pub use envelope::Attributes;
pub use envelope::PostQuery;
pub use envelope::TagQuery;
pub use error::Error;
pub use post::Post;
pub use post::PostsRequestBuilder;
pub use post::Rating;
pub use query::QueryParam;
pub use query::build_url;
pub use query::validate_url;
pub use tag::Ordering;
pub use tag::Tag;
pub use tag::TagSearch;
pub use tag::TagType;
pub use tag::TagsRequestBuilder;

verus! {

/// Gateway to the posts endpoint: a fresh builder with nothing set.
pub fn posts() -> (r: PostsRequestBuilder)
    ensures
        r.limit is None,
        r.tags.deep_view() == Seq::<Seq<char>>::empty(),
        r.tags_raw@ == Seq::<char>::empty(),
        r.rating is None,
        !r.sort_random,
{
    let b = PostsRequestBuilder {
        limit: None,
        tags: Vec::new(),
        tags_raw: String::new(),
        rating: None,
        sort_random: false,
    };
    proof {
        assert(b.tags.deep_view() =~= Seq::<Seq<char>>::empty());
    }
    b
}

/// Gateway to the tags endpoint: a fresh builder with nothing set.
pub fn tags() -> (r: TagsRequestBuilder)
    ensures
        r.limit is None,
        r.after_id is None,
        r.order_by is None,
        r.ascending is None,
{
    TagsRequestBuilder::new()
}

} // verus!
