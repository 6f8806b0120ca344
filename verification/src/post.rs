//! The posts endpoint: the `Post` record with its derived accessors, the
//! `Rating` classification, and the request builder that compiles a
//! tag-search expression.

use vstd::prelude::*;
use vstd::std_specs::cmp::PartialOrdSpec;

use crate::datetime::parse_stamp;
use crate::datetime::DateStamp;
use crate::error::Error;
use crate::query::QueryParam;
use crate::text::dec_digits;
use crate::text::join_spaces;
use crate::text::join_with_spaces;
use crate::text::split_on_spaces;
use crate::text::split_spaces;
use crate::text::usize_to_dec;

verus! {

/// The content rating of a post, ordered from tamest to most explicit.
#[derive(Clone, Copy, Debug, PartialEq, Eq, Structural)]
pub enum Rating {
    Safe,
    Questionable,
    Explicit,
}

/// The place of a rating in the order `Safe < Questionable < Explicit`.
pub open spec fn rating_rank(r: Rating) -> int {
    match r {
        Rating::Safe => 0,
        Rating::Questionable => 1,
        Rating::Explicit => 2,
    }
}

impl Rating {
    /// The place of this rating in the order, as an executable value.
    pub fn rank(&self) -> (n: u8)
        ensures
            n == rating_rank(*self),
    {
        match self {
            Rating::Safe => 0,
            Rating::Questionable => 1,
            Rating::Explicit => 2,
        }
    }
}

impl PartialOrd for Rating {
    fn partial_cmp(&self, other: &Rating) -> (r: Option<core::cmp::Ordering>) {
        let a = self.rank();
        let b = other.rank();
        if a < b {
            Some(core::cmp::Ordering::Less)
        } else if a == b {
            Some(core::cmp::Ordering::Equal)
        } else {
            Some(core::cmp::Ordering::Greater)
        }
    }
}

impl vstd::std_specs::cmp::PartialOrdSpecImpl for Rating {
    open spec fn obeys_partial_cmp_spec() -> bool {
        true
    }

    open spec fn partial_cmp_spec(&self, other: &Rating) -> Option<core::cmp::Ordering> {
        if rating_rank(*self) < rating_rank(*other) {
            Some(core::cmp::Ordering::Less)
        } else if rating_rank(*self) == rating_rank(*other) {
            Some(core::cmp::Ordering::Equal)
        } else {
            Some(core::cmp::Ordering::Greater)
        }
    }
}

/// The ratings are totally ordered: `Safe < Questionable < Explicit`, and
/// comparing any two ratings goes by their rank.
pub proof fn lemma_rating_order()
    ensures
        rating_rank(Rating::Safe) < rating_rank(Rating::Questionable) < rating_rank(
            Rating::Explicit,
        ),
        forall|a: Rating, b: Rating|
            #[trigger] a.partial_cmp_spec(&b) == Some(core::cmp::Ordering::Less) <==> rating_rank(
                a,
            ) < rating_rank(b),
{
}

/// The rating a raw single-letter code denotes, going by the first
/// character; any other code is outside the recognized set.
pub open spec fn rating_of(code: Seq<char>) -> Option<Rating> {
    if code.len() == 0 {
        None
    } else if code[0] == 's' {
        Some(Rating::Safe)
    } else if code[0] == 'q' {
        Some(Rating::Questionable)
    } else if code[0] == 'e' {
        Some(Rating::Explicit)
    } else {
        None
    }
}

/// A post record as the wire envelope carries it: raw fields, with the
/// derived values read through the accessor methods.
#[derive(Clone, Debug)]
pub struct Post {
    pub source: String,
    pub directory: String,
    pub height: u64,
    pub id: u64,
    pub image: String,
    pub change: u64,
    pub owner: String,
    pub parent_id: Option<u64>,
    pub rating: String,
    pub sample: u64,
    pub preview_height: u64,
    pub preview_width: u64,
    pub sample_height: u64,
    pub sample_width: u64,
    pub score: u64,
    pub tags: String,
    pub title: String,
    pub width: u64,
    pub file_url: String,
    pub created_at: String,
    pub post_locked: u64,
}

impl Post {
    /// The numeric identifier of the post.
    pub fn id(&self) -> (r: u64)
        ensures
            r == self.id,
    {
        self.id
    }

    /// The title of the post.
    pub fn title<'a>(&'a self) -> (r: &'a str)
        ensures
            r@ == self.title@,
    {
        self.title.as_str()
    }

    /// The score of the post.
    pub fn score(&self) -> (r: u64)
        ensures
            r == self.score,
    {
        self.score
    }

    /// The rating the raw code denotes; a code outside `{s, q, e}` is a
    /// mapping defect carrying the raw code.
    pub fn rating(&self) -> (r: Result<Rating, Error>)
        ensures
            rating_of(self.rating@) matches Some(v) ==> (r matches Ok(x) && x == v),
            rating_of(self.rating@) is None ==> (r matches Err(e) && (e matches Error::MappingDefect(
                raw,
            ) && raw@ == self.rating@)),
    {
        if self.rating.as_str().unicode_len() == 0 {
            return Err(Error::MappingDefect(self.rating.clone()));
        }
        let c = self.rating.as_str().get_char(0);
        if c == 's' {
            Ok(Rating::Safe)
        } else if c == 'q' {
            Ok(Rating::Questionable)
        } else if c == 'e' {
            Ok(Rating::Explicit)
        } else {
            Err(Error::MappingDefect(self.rating.clone()))
        }
    }

    /// The instant the post was created: the raw timestamp field parsed
    /// from the fixed format; text that does not match the format is a
    /// mapping defect carrying the raw text.
    pub fn created_at(&self) -> (r: Result<DateStamp, Error>)
        ensures
            parse_stamp(self.created_at@) matches Some(d) ==> (r matches Ok(x) && x == d),
            parse_stamp(self.created_at@) is None ==> (r matches Err(e) && (
            e matches Error::MappingDefect(raw) && raw@ == self.created_at@)),
    {
        DateStamp::parse(self.created_at.as_str())
    }

    /// The name of the owner of the post.
    pub fn owner<'a>(&'a self) -> (r: &'a str)
        ensures
            r@ == self.owner@,
    {
        self.owner.as_str()
    }

    /// The tag names of the post, split out of the space-joined raw string
    /// on demand.
    pub fn tags(&self) -> (r: Vec<String>)
        ensures
            r.deep_view() == split_spaces(self.tags@),
    {
        split_on_spaces(self.tags.as_str())
    }

    /// The width and height of the image, in that order.
    pub fn dimensions(&self) -> (r: (u64, u64))
        ensures
            r.0 == self.width,
            r.1 == self.height,
    {
        (self.width, self.height)
    }

    /// The URL of the image file.
    pub fn image_url<'a>(&'a self) -> (r: &'a str)
        ensures
            r@ == self.file_url@,
    {
        self.file_url.as_str()
    }

    /// The source the post credits.
    pub fn source<'a>(&'a self) -> (r: &'a str)
        ensures
            r@ == self.source@,
    {
        self.source.as_str()
    }
}

/// Request builder for the posts endpoint: accumulates filter state and
/// compiles it into a tag-search expression.
#[derive(Clone, Debug)]
pub struct PostsRequestBuilder {
    pub limit: Option<usize>,
    pub tags: Vec<String>,
    pub tags_raw: String,
    pub rating: Option<Rating>,
    pub sort_random: bool,
}

/// The tag-search meta-tag a rating compiles to.
pub open spec fn rating_meta_tag(r: Rating) -> Seq<char> {
    match r {
        Rating::Safe => "rating:safe"@,
        Rating::Questionable => "rating:questionable"@,
        Rating::Explicit => "rating:explicit"@,
    }
}

/// The compiled tag-search expression of a builder: the rating meta-tag and
/// a space (when a rating is set), the randomize meta-tag and a space (when
/// randomizing), the space-joined tag list, and a space and the raw suffix
/// (when the suffix is non-empty), concatenated in that fixed order.
pub open spec fn compiled_tags(b: PostsRequestBuilder) -> Seq<char> {
    (match b.rating {
        Some(r) => rating_meta_tag(r) + seq![' '],
        None => Seq::<char>::empty(),
    }) + (if b.sort_random {
        "sort:random"@ + seq![' ']
    } else {
        Seq::<char>::empty()
    }) + join_spaces(b.tags.deep_view()) + (if b.tags_raw@.len() > 0 {
        seq![' '] + b.tags_raw@
    } else {
        Seq::<char>::empty()
    })
}

/// The limit a builder sends: what was set, or the server default of 100.
pub open spec fn posts_effective_limit(b: PostsRequestBuilder) -> int {
    match b.limit {
        Some(n) => n as int,
        None => 100,
    }
}

/// The query parameters a posts request carries, in order: the endpoint
/// selector, the limit, and the compiled tag expression.
pub open spec fn posts_params(b: PostsRequestBuilder) -> Seq<(Seq<char>, Seq<char>)> {
    seq![
        ("s"@, "post"@),
        ("limit"@, dec_digits(posts_effective_limit(b) as nat)),
        ("tags"@, compiled_tags(b)),
    ]
}

impl PostsRequestBuilder {
    /// Amount of posts to receive; the server default of 100 applies when
    /// unset.
    pub fn limit(self, limit: usize) -> (r: Self)
        ensures
            r.limit == Some(limit),
            r.tags == self.tags,
            r.tags_raw == self.tags_raw,
            r.rating == self.rating,
            r.sort_random == self.sort_random,
    {
        let mut b = self;
        b.limit = Some(limit);
        b
    }

    /// Adds a single tag to the list of tags to search for.
    pub fn tag(self, tag: &str) -> (r: Self)
        ensures
            r.limit == self.limit,
            r.tags.deep_view() == self.tags.deep_view().push(tag@),
            r.tags_raw == self.tags_raw,
            r.rating == self.rating,
            r.sort_random == self.sort_random,
    {
        let mut b = self;
        let ghost old_dv = b.tags.deep_view();
        b.tags.push(tag.to_owned());
        proof {
            assert(b.tags.deep_view() =~= old_dv.push(tag@));
        }
        b
    }

    /// Appends tags to the list of tags to search for; previously added
    /// tags are kept.
    pub fn tags(self, tags: &[&str]) -> (r: Self)
        ensures
            r.limit == self.limit,
            r.tags.deep_view() == self.tags.deep_view() + tags.deep_view(),
            r.tags_raw == self.tags_raw,
            r.rating == self.rating,
            r.sort_random == self.sort_random,
    {
        let mut b = self;
        let ghost old_dv = b.tags.deep_view();
        let mut i: usize = 0;
        while i < tags.len()
            invariant
                0 <= i <= tags.len(),
                b.tags.deep_view() =~= old_dv + tags.deep_view().take(i as int),
                b.limit == self.limit,
                b.tags_raw == self.tags_raw,
                b.rating == self.rating,
                b.sort_random == self.sort_random,
            decreases tags.len() - i,
        {
            let ghost prev = b.tags.deep_view();
            let t: &str = slice_index_get(tags, i);
            b.tags.push(t.to_owned());
            proof {
                assert(b.tags.deep_view() =~= prev.push(t@));
                assert(prev.push(t@) =~= old_dv + tags.deep_view().take(i + 1));
            }
            i += 1;
        }
        proof {
            assert(tags.deep_view().take(tags.len() as int) =~= tags.deep_view());
        }
        b
    }

    /// Replaces the raw suffix appended verbatim, unchecked, to the
    /// compiled tag expression.
    pub fn tags_raw(self, raw_tags: &str) -> (r: Self)
        ensures
            r.limit == self.limit,
            r.tags == self.tags,
            r.tags_raw@ == raw_tags@,
            r.rating == self.rating,
            r.sort_random == self.sort_random,
    {
        let mut b = self;
        b.tags_raw = raw_tags.to_owned();
        b
    }

    /// Empties the tag list and the raw suffix alike.
    pub fn clear_tags(self) -> (r: Self)
        ensures
            r.limit == self.limit,
            r.tags.deep_view() == Seq::<Seq<char>>::empty(),
            r.tags_raw@ == Seq::<char>::empty(),
            r.rating == self.rating,
            r.sort_random == self.sort_random,
    {
        let mut b = self;
        b.tags = Vec::new();
        b.tags_raw = String::new();
        proof {
            assert(b.tags.deep_view() =~= Seq::<Seq<char>>::empty());
        }
        b
    }

    /// Filters by content rating.
    pub fn rating(self, rating: Rating) -> (r: Self)
        ensures
            r.limit == self.limit,
            r.tags == self.tags,
            r.tags_raw == self.tags_raw,
            r.rating == Some(rating),
            r.sort_random == self.sort_random,
    {
        let mut b = self;
        b.rating = Some(rating);
        b
    }

    /// Randomizes the order of posts server-side.
    pub fn random(self, random: bool) -> (r: Self)
        ensures
            r.limit == self.limit,
            r.tags == self.tags,
            r.tags_raw == self.tags_raw,
            r.rating == self.rating,
            r.sort_random == random,
    {
        let mut b = self;
        b.sort_random = random;
        b
    }

    /// Compiles the tag-search expression from the accumulated state.
    pub fn compile_tags(&self) -> (t: String)
        ensures
            t@ == compiled_tags(*self),
    {
        let mut t = String::new();
        proof {
            reveal_strlit(" ");
            reveal_strlit("sort:random ");
            reveal_strlit("sort:random");
            reveal_strlit("rating:safe ");
            reveal_strlit("rating:safe");
            reveal_strlit("rating:questionable ");
            reveal_strlit("rating:questionable");
            reveal_strlit("rating:explicit ");
            reveal_strlit("rating:explicit");
        }
        match self.rating {
            Some(Rating::Safe) => t.append("rating:safe "),
            Some(Rating::Questionable) => t.append("rating:questionable "),
            Some(Rating::Explicit) => t.append("rating:explicit "),
            None => (),
        }
        if self.sort_random {
            t.append("sort:random ");
        }
        let joined = join_with_spaces(&self.tags);
        t.append(joined.as_str());
        if !self.tags_raw.as_str().is_empty() {
            t.append(" ");
            t.append(self.tags_raw.as_str());
        }
        proof {
            assert(t@ =~= compiled_tags(*self));
        }
        t
    }

    /// The query parameters of the request this builder describes.
    pub fn query_params(&self) -> (r: Vec<QueryParam>)
        ensures
            r@.map_values(|p: QueryParam| p@) == posts_params(*self),
    {
        let mut r: Vec<QueryParam> = Vec::new();
        r.push(QueryParam::new("s", "post".to_owned()));
        let limit = match self.limit {
            Some(n) => n,
            None => 100,
        };
        r.push(QueryParam::new("limit", usize_to_dec(limit)));
        r.push(QueryParam::new("tags", self.compile_tags()));
        proof {
            assert(r@.map_values(|p: QueryParam| p@) =~= posts_params(*self));
        }
        r
    }
}

/// Reads one element of a slice.
fn slice_index_get<'a>(s: &'a [&'a str], i: usize) -> (r: &'a str)
    requires
        i < s.len(),
    ensures
        r == s@[i as int],
{
    s[i]
}

/// After the tag list is emptied, the compiled tag list is exactly the
/// join of whatever tags are added afterwards: nothing added before the
/// clearing can reach it.
pub proof fn lemma_cleared_tags_forgotten(cleared: Seq<Seq<char>>, ts: Seq<Seq<char>>)
    requires
        cleared.len() == 0,
    ensures
        join_spaces(cleared + ts) == join_spaces(ts),
{
    assert(cleared + ts =~= ts);
}

} // verus!
