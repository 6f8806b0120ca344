use gelbooru_api::{Attributes, Error, Post, PostQuery, Rating, Tag, TagQuery, TagType};

fn sample_post(rating: &str, tags: &str) -> Post {
    Post {
        source: "https://example.com/art".to_string(),
        directory: "ab".to_string(),
        height: 768,
        id: 9001,
        image: "pic.png".to_string(),
        change: 0,
        owner: "someone".to_string(),
        parent_id: None,
        rating: rating.to_string(),
        sample: 0,
        preview_height: 96,
        preview_width: 128,
        sample_height: 384,
        sample_width: 512,
        score: 17,
        tags: tags.to_string(),
        title: "untitled".to_string(),
        width: 1024,
        file_url: "https://example.com/pic.png".to_string(),
        created_at: "Mon Jan 02 15:04:05 +0000 2006".to_string(),
        post_locked: 0,
    }
}

fn sample_tag(tag_type: &str, ambiguous: &str) -> Tag {
    Tag {
        id: "1337".to_string(),
        tag: "solo".to_string(),
        count: "42".to_string(),
        tag_type: tag_type.to_string(),
        ambiguous: ambiguous.to_string(),
    }
}

#[test]
fn rating_code_mapping() {
    assert_eq!(sample_post("s", "").rating().unwrap(), Rating::Safe);
    assert_eq!(sample_post("q", "").rating().unwrap(), Rating::Questionable);
    assert_eq!(sample_post("e", "").rating().unwrap(), Rating::Explicit);
}

#[test]
fn rating_full_word_maps_by_first_letter() {
    assert_eq!(sample_post("safe", "").rating().unwrap(), Rating::Safe);
    assert_eq!(sample_post("explicit", "").rating().unwrap(), Rating::Explicit);
}

#[test]
fn rating_order_total() {
    assert!(Rating::Safe < Rating::Questionable);
    assert!(Rating::Questionable < Rating::Explicit);
    assert!(Rating::Safe < Rating::Explicit);
    assert!(!(Rating::Explicit < Rating::Safe));
}

#[test]
fn rating_defect_on_unknown_code() {
    let r = sample_post("x", "").rating();
    assert!(matches!(r, Err(Error::MappingDefect(raw)) if raw == "x"));
    let r = sample_post("", "").rating();
    assert!(matches!(r, Err(Error::MappingDefect(_))));
}

#[test]
fn tag_type_code_mapping() {
    assert_eq!(sample_tag("artist", "0").tag_type().unwrap(), TagType::Artist);
    assert_eq!(sample_tag("character", "0").tag_type().unwrap(), TagType::Character);
    assert_eq!(sample_tag("copyright", "0").tag_type().unwrap(), TagType::Copyright);
    assert_eq!(sample_tag("deprecated", "0").tag_type().unwrap(), TagType::Deprecated);
    assert_eq!(sample_tag("metadata", "0").tag_type().unwrap(), TagType::Metadata);
    assert_eq!(sample_tag("tag", "0").tag_type().unwrap(), TagType::Tag);
}

#[test]
fn tag_type_defect_on_unknown_code() {
    let r = sample_tag("weird", "0").tag_type();
    assert!(matches!(r, Err(Error::MappingDefect(raw)) if raw == "weird"));
}

#[test]
fn ambiguous_flag_zero_only() {
    assert!(!sample_tag("tag", "0").ambigious());
    assert!(sample_tag("tag", "1").ambigious());
    assert!(sample_tag("tag", "2").ambigious());
    assert!(sample_tag("tag", "").ambigious());
    assert!(sample_tag("tag", "00").ambigious());
}

#[test]
fn tag_numeric_fields_parse() {
    let t = sample_tag("tag", "0");
    assert_eq!(t.id().unwrap(), 1337);
    assert_eq!(t.count().unwrap(), 42);
    assert_eq!(t.tag(), "solo");
}

#[test]
fn tag_numeric_field_defect() {
    let mut t = sample_tag("tag", "0");
    t.id = "abc".to_string();
    assert!(matches!(t.id(), Err(Error::MappingDefect(raw)) if raw == "abc"));
    t.count = String::new();
    assert!(matches!(t.count(), Err(Error::MappingDefect(_))));
}

#[test]
fn post_plain_accessors() {
    let p = sample_post("s", "a b");
    assert_eq!(p.id(), 9001);
    assert_eq!(p.score(), 17);
    assert_eq!(p.title(), "untitled");
    assert_eq!(p.owner(), "someone");
    assert_eq!(p.image_url(), "https://example.com/pic.png");
    assert_eq!(p.source(), "https://example.com/art");
    assert_eq!(p.dimensions(), (1024, 768));
}

#[test]
fn post_tags_split() {
    let p = sample_post("s", "hatsune_miku solo");
    assert_eq!(p.tags(), vec!["hatsune_miku".to_string(), "solo".to_string()]);
    let p = sample_post("s", "a  b");
    assert_eq!(p.tags(), vec!["a".to_string(), String::new(), "b".to_string()]);
    let p = sample_post("s", "");
    assert_eq!(p.tags(), vec![String::new()]);
}

#[test]
fn envelope_absent_items_is_empty() {
    let attrs = Attributes::new(100, 0, 0);
    let pq = PostQuery::new(attrs, None);
    assert!(pq.posts.is_empty());
    let tq = TagQuery::new(attrs, None);
    assert!(tq.tags.is_empty());
}

#[test]
fn envelope_present_items_kept() {
    let attrs = Attributes::new(100, 0, 2);
    let pq = PostQuery::new(attrs, Some(vec![sample_post("s", ""), sample_post("q", "")]));
    assert_eq!(pq.posts.len(), 2);
    assert_eq!(pq.attributes.count, 2);
}

#[test]
fn tag_query_first_record() {
    let attrs = Attributes::new(1, 0, 1);
    let tq = TagQuery::new(attrs, Some(vec![sample_tag("artist", "0")]));
    let first = tq.into_first().unwrap();
    assert_eq!(first.tag(), "solo");
    let empty = TagQuery::new(attrs, None);
    assert!(empty.into_first().is_none());
}
