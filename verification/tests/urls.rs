use gelbooru_api::{build_url, posts, validate_url, AuthDetails, Error, QueryParam};

const BASE: &str = "https://gelbooru.com/index.php?page=dapi&q=index&json=1";

#[test]
fn encode_keeps_unreserved_text() {
    let params = vec![QueryParam::new("tags", "hatsune_miku".to_string())];
    let url = build_url(&params, &None).unwrap();
    assert_eq!(url, format!("{BASE}&tags=hatsune_miku"));
}

#[test]
fn encode_escapes_reserved_characters() {
    let params = vec![QueryParam::new("tags", "hello! :D".to_string())];
    let url = build_url(&params, &None).unwrap();
    assert_eq!(url, format!("{BASE}&tags=hello%21%20%3AD"));
}

#[test]
fn encode_escapes_multibyte_characters() {
    let params = vec![QueryParam::new("tags", "é€".to_string())];
    let url = build_url(&params, &None).unwrap();
    assert_eq!(url, format!("{BASE}&tags=%C3%A9%E2%82%AC"));
}

#[test]
fn build_url_posts_defaults() {
    let params = posts().query_params();
    let url = build_url(&params, &None).unwrap();
    assert_eq!(url, format!("{BASE}&s=post&limit=100&tags="));
}

#[test]
fn build_url_appends_credentials() {
    let params = posts().limit(5).query_params();
    let auth = Some(AuthDetails {
        user: 42,
        key: "abc123".to_string(),
    });
    let url = build_url(&params, &auth).unwrap();
    assert_eq!(
        url,
        format!("{BASE}&s=post&limit=5&tags=&user_id=42&api_key=abc123")
    );
}

#[test]
fn validate_url_accepts_the_base() {
    assert!(validate_url(BASE).is_ok());
}

#[test]
fn validate_url_rejects_spaces() {
    let r = validate_url("ht tp://nope");
    assert!(matches!(r, Err(Error::UrlConstruction)));
}

#[test]
fn compiled_spaces_survive_encoding() {
    let b = posts().tags(&["hatsune_miku", "solo"]);
    let params = b.query_params();
    let url = build_url(&params, &None).unwrap();
    assert!(url.ends_with("&tags=hatsune_miku%20solo"));
}
