use gelbooru_api::{AuthDetails, Error};

#[test]
fn auth_parse_well_formed_blob() {
    let a = AuthDetails::from_query_string("&api_key=ABCDEF&user_id=42").unwrap();
    assert_eq!(a.user, 42);
    assert_eq!(a.key, "ABCDEF");
}

#[test]
fn auth_parse_empty_key() {
    let a = AuthDetails::from_query_string("&api_key=&user_id=7").unwrap();
    assert_eq!(a.user, 7);
    assert_eq!(a.key, "");
}

#[test]
fn auth_missing_marker_is_error() {
    let r = AuthDetails::from_query_string("no id in here");
    assert!(matches!(r, Err(Error::CredentialParse)));
}

#[test]
fn auth_marker_inside_prefix_is_error() {
    let r = AuthDetails::from_query_string("ABCDEF&user_id=42");
    assert!(matches!(r, Err(Error::CredentialParse)));
}

#[test]
fn auth_non_numeric_id_is_error() {
    let r = AuthDetails::from_query_string("&api_key=X&user_id=4a2");
    assert!(matches!(r, Err(Error::CredentialParse)));
    let r = AuthDetails::from_query_string("&api_key=X&user_id=");
    assert!(matches!(r, Err(Error::CredentialParse)));
}

#[test]
fn auth_trailing_text_after_id_is_error() {
    let r = AuthDetails::from_query_string("&api_key=k&user_id=5&user_id=9");
    assert!(matches!(r, Err(Error::CredentialParse)));
}

#[test]
fn auth_large_id() {
    let a = AuthDetails::from_query_string("&api_key=zz&user_id=123456789").unwrap();
    assert_eq!(a.user, 123456789);
    assert_eq!(a.key, "zz");
}
