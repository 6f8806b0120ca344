use gelbooru_api::{posts, tags, Ordering, QueryParam, Rating, TagSearch};

fn names_of(params: &[QueryParam]) -> Vec<String> {
    params.iter().map(|p| p.name.clone()).collect()
}

fn value_of<'a>(params: &'a [QueryParam], name: &str) -> &'a str {
    params
        .iter()
        .find(|p| p.name == name)
        .expect("parameter missing")
        .value
        .as_str()
}

#[test]
fn posts_compile_order() {
    let b = posts()
        .tags(&["hatsune_miku", "solo"])
        .rating(Rating::Safe)
        .tags_raw("rating:s");
    assert_eq!(
        b.compile_tags().as_str(),
        "rating:safe hatsune_miku solo rating:s"
    );
}

#[test]
fn posts_clear_then_add() {
    let b = posts()
        .tags(&["herro", "world"])
        .tags_raw("junk")
        .clear_tags()
        .tags(&["a", "b"]);
    assert_eq!(b.compile_tags().as_str(), "a b");
}

#[test]
fn posts_compile_empty_by_default() {
    assert_eq!(posts().compile_tags().as_str(), "");
}

#[test]
fn posts_compile_random() {
    let b = posts().random(true).tag("a");
    assert_eq!(b.compile_tags().as_str(), "sort:random a");
}

#[test]
fn posts_single_tag_then_list() {
    let b = posts()
        .tags_raw("hello")
        .tag("there")
        .tags(&["hatsune_miku", "solo"]);
    assert_eq!(b.compile_tags().as_str(), "there hatsune_miku solo hello");
}

#[test]
fn posts_params_default_limit() {
    let params = posts().query_params();
    assert_eq!(names_of(&params), vec!["s", "limit", "tags"]);
    assert_eq!(value_of(&params, "s"), "post");
    assert_eq!(value_of(&params, "limit"), "100");
    assert_eq!(value_of(&params, "tags"), "");
}

#[test]
fn posts_params_explicit_limit() {
    let params = posts().limit(5).query_params();
    assert_eq!(value_of(&params, "limit"), "5");
}

#[test]
fn tags_name_default_limit_one() {
    let params = tags().query_params(&Some(TagSearch::Name("solo".to_string())));
    assert_eq!(value_of(&params, "limit"), "1");
    assert_eq!(value_of(&params, "name"), "solo");
}

#[test]
fn tags_names_default_limit_count() {
    let names = vec!["a".to_string(), "b".to_string(), "c".to_string()];
    let params = tags().query_params(&Some(TagSearch::Names(names)));
    assert_eq!(value_of(&params, "limit"), "3");
    assert_eq!(value_of(&params, "names"), "a b c");
}

#[test]
fn tags_pattern_default_limit_hundred() {
    let params = tags().query_params(&Some(TagSearch::Pattern("%o_o".to_string())));
    assert_eq!(value_of(&params, "limit"), "100");
    assert_eq!(value_of(&params, "name_pattern"), "%o_o");
}

#[test]
fn tags_explicit_limit_wins() {
    let names = vec!["a".to_string(), "b".to_string(), "c".to_string()];
    let params = tags().limit(7).query_params(&Some(TagSearch::Names(names)));
    assert_eq!(value_of(&params, "limit"), "7");
}

#[test]
fn tags_no_search_defaults() {
    let params = tags().query_params(&None);
    assert_eq!(names_of(&params), vec!["s", "limit"]);
    assert_eq!(value_of(&params, "s"), "tag");
    assert_eq!(value_of(&params, "limit"), "100");
}

#[test]
fn tags_sort_parameters() {
    let params = tags()
        .after_id(10)
        .order_by(Ordering::Count)
        .ascending(true)
        .query_params(&None);
    assert_eq!(names_of(&params), vec!["s", "limit", "after_id", "orderby", "order"]);
    assert_eq!(value_of(&params, "after_id"), "10");
    assert_eq!(value_of(&params, "orderby"), "count");
    assert_eq!(value_of(&params, "order"), "ASC");
}

#[test]
fn tags_descending_order() {
    let params = tags().ascending(false).order_by(Ordering::Date).query_params(&None);
    assert_eq!(value_of(&params, "orderby"), "date");
    assert_eq!(value_of(&params, "order"), "DESC");
}

#[test]
fn tags_order_by_name_code() {
    let params = tags().order_by(Ordering::Name).query_params(&None);
    assert_eq!(value_of(&params, "orderby"), "name");
}
