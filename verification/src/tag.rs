//! The tags endpoint: the `Tag` record with its derived accessors, the
//! `TagType` classification, and the request builder with its three search
//! modes.

use vstd::prelude::*;

use crate::error::Error;
use crate::query::QueryParam;
use crate::text::all_digits;
use crate::text::dec_digits;
use crate::text::dec_value;
use crate::text::join_spaces;
use crate::text::join_with_spaces;
use crate::text::parse_u64;
use crate::text::usize_to_dec;

verus! {

/// The classification of a tag.
#[derive(Clone, Copy, Debug, PartialEq, Eq, Structural)]
pub enum TagType {
    Artist,
    Character,
    Copyright,
    Deprecated,
    Metadata,
    Tag,
}

/// The tag type a raw type code denotes; any other code is outside the
/// recognized set.
pub open spec fn tag_type_of(code: Seq<char>) -> Option<TagType> {
    if code == "artist"@ {
        Some(TagType::Artist)
    } else if code == "character"@ {
        Some(TagType::Character)
    } else if code == "copyright"@ {
        Some(TagType::Copyright)
    } else if code == "deprecated"@ {
        Some(TagType::Deprecated)
    } else if code == "metadata"@ {
        Some(TagType::Metadata)
    } else if code == "tag"@ {
        Some(TagType::Tag)
    } else {
        None
    }
}

/// A tag record as the wire envelope carries it: raw numeric-string
/// fields, with the derived values read through the accessor methods.
#[derive(Clone, Debug)]
pub struct Tag {
    pub id: String,
    pub tag: String,
    pub count: String,
    pub tag_type: String,
    pub ambiguous: String,
}

impl Tag {
    /// The numeric identifier of the tag; a raw field that is not a
    /// number is a mapping defect carrying the raw text.
    pub fn id(&self) -> (r: Result<u64, Error>)
        ensures
            (self.id@.len() > 0 && all_digits(self.id@) && dec_value(self.id@) <= u64::MAX) ==> (
            r matches Ok(n) && n == dec_value(self.id@)),
            !(self.id@.len() > 0 && all_digits(self.id@) && dec_value(self.id@) <= u64::MAX) ==> (
            r matches Err(e) && (e matches Error::MappingDefect(raw) && raw@ == self.id@)),
    {
        match parse_u64(self.id.as_str()) {
            Some(n) => Ok(n),
            None => Err(Error::MappingDefect(self.id.clone())),
        }
    }

    /// The name of the tag.
    pub fn tag<'a>(&'a self) -> (r: &'a str)
        ensures
            r@ == self.tag@,
    {
        self.tag.as_str()
    }

    /// How many posts carry the tag; a raw field that is not a number is
    /// a mapping defect carrying the raw text.
    pub fn count(&self) -> (r: Result<u64, Error>)
        ensures
            (self.count@.len() > 0 && all_digits(self.count@) && dec_value(self.count@)
                <= u64::MAX) ==> (r matches Ok(n) && n == dec_value(self.count@)),
            !(self.count@.len() > 0 && all_digits(self.count@) && dec_value(self.count@)
                <= u64::MAX) ==> (r matches Err(e) && (e matches Error::MappingDefect(raw) && raw@
                == self.count@)),
    {
        match parse_u64(self.count.as_str()) {
            Some(n) => Ok(n),
            None => Err(Error::MappingDefect(self.count.clone())),
        }
    }

    /// The classification the raw type code denotes; a code outside the
    /// recognized set is a mapping defect carrying the raw code.
    pub fn tag_type(&self) -> (r: Result<TagType, Error>)
        ensures
            tag_type_of(self.tag_type@) matches Some(v) ==> (r matches Ok(x) && x == v),
            tag_type_of(self.tag_type@) is None ==> (r matches Err(e) && (
            e matches Error::MappingDefect(raw) && raw@ == self.tag_type@)),
    {
        let code = self.tag_type.as_str();
        if str_eq(code, "artist") {
            Ok(TagType::Artist)
        } else if str_eq(code, "character") {
            Ok(TagType::Character)
        } else if str_eq(code, "copyright") {
            Ok(TagType::Copyright)
        } else if str_eq(code, "deprecated") {
            Ok(TagType::Deprecated)
        } else if str_eq(code, "metadata") {
            Ok(TagType::Metadata)
        } else if str_eq(code, "tag") {
            Ok(TagType::Tag)
        } else {
            Err(Error::MappingDefect(self.tag_type.clone()))
        }
    }

    /// Whether the tag is marked ambiguous: false exactly when the raw
    /// flag is the literal `0`.
    pub fn ambigious(&self) -> (r: bool)
        ensures
            r <==> self.ambiguous@ != "0"@,
    {
        !str_eq(self.ambiguous.as_str(), "0")
    }
}

/// Whether two texts hold the same characters.
fn str_eq(a: &str, b: &str) -> (r: bool)
    ensures
        r <==> a@ == b@,
{
    let a_len = a.unicode_len();
    let b_len = b.unicode_len();
    if a_len != b_len {
        return false;
    }
    let mut i: usize = 0;
    while i < a_len
        invariant
            0 <= i <= a_len,
            a_len == a@.len(),
            a_len == b@.len(),
            forall|j: int| 0 <= j < i ==> a@[j] == b@[j],
        decreases a_len - i,
    {
        if a.get_char(i) != b.get_char(i) {
            return false;
        }
        i += 1;
    }
    proof {
        assert(a@ =~= b@);
    }
    true
}

/// The field tags are sorted by in a query.
#[derive(Clone, Copy, Debug, PartialEq, Eq, Structural)]
pub enum Ordering {
    Date,
    Count,
    Name,
}

/// The wire name of a sort field.
pub open spec fn ordering_code(o: Ordering) -> Seq<char> {
    match o {
        Ordering::Date => "date"@,
        Ordering::Count => "count"@,
        Ordering::Name => "name"@,
    }
}

/// The search mode of one tags request: an exact name, an ordered list of
/// names, or a wildcard pattern in the service's SQL-style syntax (`_` for
/// one character, `%` for any run).
#[derive(Clone, Debug)]
pub enum TagSearch {
    Name(String),
    Names(Vec<String>),
    Pattern(String),
}

/// The mode-specific query parameter of a search.
pub open spec fn search_param(s: TagSearch) -> (Seq<char>, Seq<char>) {
    match s {
        TagSearch::Name(n) => ("name"@, n@),
        TagSearch::Names(ns) => ("names"@, join_spaces(ns.deep_view())),
        TagSearch::Pattern(p) => ("name_pattern"@, p@),
    }
}

/// Request builder for the tags endpoint: accumulates filter state; a
/// search mode is chosen per call.
#[derive(Clone, Copy, Debug)]
pub struct TagsRequestBuilder {
    pub limit: Option<usize>,
    pub after_id: Option<usize>,
    pub order_by: Option<Ordering>,
    pub ascending: Option<bool>,
}

/// The limit a builder sends: what was set, or a default by search mode —
/// one record for an exact name, one per requested name for a name list,
/// and the server default of 100 otherwise.
pub open spec fn tags_effective_limit(b: TagsRequestBuilder, search: Option<TagSearch>) -> int {
    match b.limit {
        Some(n) => n as int,
        None => match search {
            Some(TagSearch::Name(_)) => 1,
            Some(TagSearch::Names(ns)) => ns.len() as int,
            _ => 100,
        },
    }
}

/// The two parameters every tags request carries: the endpoint selector
/// and the limit.
pub open spec fn tags_base_params(b: TagsRequestBuilder, search: Option<TagSearch>) -> Seq<
    (Seq<char>, Seq<char>),
> {
    seq![("s"@, "tag"@), ("limit"@, dec_digits(tags_effective_limit(b, search) as nat))]
}

/// The cursor parameter, present when a cursor is set.
pub open spec fn tags_after_params(b: TagsRequestBuilder) -> Seq<(Seq<char>, Seq<char>)> {
    match b.after_id {
        Some(id) => seq![("after_id"@, dec_digits(id as nat))],
        None => Seq::<(Seq<char>, Seq<char>)>::empty(),
    }
}

/// The sort-field parameter, present when a sort field is set.
pub open spec fn tags_order_by_params(b: TagsRequestBuilder) -> Seq<(Seq<char>, Seq<char>)> {
    match b.order_by {
        Some(o) => seq![("orderby"@, ordering_code(o))],
        None => Seq::<(Seq<char>, Seq<char>)>::empty(),
    }
}

/// The sort-direction parameter, present when a direction is set.
pub open spec fn tags_asc_params(b: TagsRequestBuilder) -> Seq<(Seq<char>, Seq<char>)> {
    match b.ascending {
        Some(true) => seq![("order"@, "ASC"@)],
        Some(false) => seq![("order"@, "DESC"@)],
        None => Seq::<(Seq<char>, Seq<char>)>::empty(),
    }
}

/// The mode parameter, present when a search mode is chosen.
pub open spec fn tags_mode_params(search: Option<TagSearch>) -> Seq<(Seq<char>, Seq<char>)> {
    match search {
        Some(s) => seq![search_param(s)],
        None => Seq::<(Seq<char>, Seq<char>)>::empty(),
    }
}

/// The query parameters a tags request carries, in order: the endpoint
/// selector and the limit always; the cursor, the sort field and the sort
/// direction each when set; and the mode parameter when a search mode is
/// chosen.
pub open spec fn tags_params(b: TagsRequestBuilder, search: Option<TagSearch>) -> Seq<
    (Seq<char>, Seq<char>),
> {
    tags_base_params(b, search) + tags_after_params(b) + tags_order_by_params(b) + tags_asc_params(
        b,
    ) + tags_mode_params(search)
}

impl TagsRequestBuilder {
    /// A fresh builder with nothing set.
    pub fn new() -> (r: Self)
        ensures
            r.limit is None,
            r.after_id is None,
            r.order_by is None,
            r.ascending is None,
    {
        TagsRequestBuilder { limit: None, after_id: None, order_by: None, ascending: None }
    }

    /// Amount of tags to receive; without an explicit limit a default by
    /// search mode applies.
    pub fn limit(self, limit: usize) -> (r: Self)
        ensures
            r.limit == Some(limit),
            r.after_id == self.after_id,
            r.order_by == self.order_by,
            r.ascending == self.ascending,
    {
        let mut b = self;
        b.limit = Some(limit);
        b
    }

    /// Only tags with an id after this cursor.
    pub fn after_id(self, id: usize) -> (r: Self)
        ensures
            r.limit == self.limit,
            r.after_id == Some(id),
            r.order_by == self.order_by,
            r.ascending == self.ascending,
    {
        let mut b = self;
        b.after_id = Some(id);
        b
    }

    /// The sort direction; the server default applies when unset.
    pub fn ascending(self, ascending: bool) -> (r: Self)
        ensures
            r.limit == self.limit,
            r.after_id == self.after_id,
            r.order_by == self.order_by,
            r.ascending == Some(ascending),
    {
        let mut b = self;
        b.ascending = Some(ascending);
        b
    }

    /// The field tags are sorted by; the server default applies when
    /// unset.
    pub fn order_by(self, ordering: Ordering) -> (r: Self)
        ensures
            r.limit == self.limit,
            r.after_id == self.after_id,
            r.order_by == Some(ordering),
            r.ascending == self.ascending,
    {
        let mut b = self;
        b.order_by = Some(ordering);
        b
    }

    /// The query parameters of the request this builder describes for the
    /// given search mode.
    pub fn query_params(&self, search: &Option<TagSearch>) -> (r: Vec<QueryParam>)
        ensures
            r@.map_values(|p: QueryParam| p@) == tags_params(*self, *search),
    {
        let mut r: Vec<QueryParam> = Vec::new();
        r.push(QueryParam::new("s", "tag".to_owned()));
        let limit: usize = match self.limit {
            Some(n) => n,
            None => match search {
                Some(TagSearch::Name(_)) => 1,
                Some(TagSearch::Names(ns)) => ns.len(),
                _ => 100,
            },
        };
        r.push(QueryParam::new("limit", usize_to_dec(limit)));
        proof {
            assert(r@.map_values(|p: QueryParam| p@) =~= tags_base_params(*self, *search));
        }
        let ghost g1 = r@.map_values(|p: QueryParam| p@);
        if let Some(id) = self.after_id {
            r.push(QueryParam::new("after_id", usize_to_dec(id)));
        }
        proof {
            assert(r@.map_values(|p: QueryParam| p@) =~= g1 + tags_after_params(*self));
        }
        let ghost g2 = r@.map_values(|p: QueryParam| p@);
        if let Some(o) = self.order_by {
            match o {
                Ordering::Date => r.push(QueryParam::new("orderby", "date".to_owned())),
                Ordering::Count => r.push(QueryParam::new("orderby", "count".to_owned())),
                Ordering::Name => r.push(QueryParam::new("orderby", "name".to_owned())),
            }
        }
        proof {
            assert(r@.map_values(|p: QueryParam| p@) =~= g2 + tags_order_by_params(*self));
        }
        let ghost g3 = r@.map_values(|p: QueryParam| p@);
        if let Some(asc) = self.ascending {
            if asc {
                r.push(QueryParam::new("order", "ASC".to_owned()));
            } else {
                r.push(QueryParam::new("order", "DESC".to_owned()));
            }
        }
        proof {
            assert(r@.map_values(|p: QueryParam| p@) =~= g3 + tags_asc_params(*self));
        }
        let ghost g4 = r@.map_values(|p: QueryParam| p@);
        match search {
            Some(TagSearch::Name(n)) => {
                r.push(QueryParam::new("name", n.clone()));
            },
            Some(TagSearch::Names(ns)) => {
                r.push(QueryParam::new("names", join_with_spaces(ns)));
            },
            Some(TagSearch::Pattern(p)) => {
                r.push(QueryParam::new("name_pattern", p.clone()));
            },
            None => {},
        }
        proof {
            assert(r@.map_values(|p: QueryParam| p@) =~= g4 + tags_mode_params(*search));
            assert(r@.map_values(|p: QueryParam| p@) =~= tags_params(*self, *search));
        }
        r
    }
}

} // verus!
