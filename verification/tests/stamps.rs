use gelbooru_api::{DateStamp, Error};

const SAMPLE: &str = "Mon Jan 02 15:04:05 +0000 2006";

#[test]
fn stamp_parse_sample_fields() {
    let d = DateStamp::parse(SAMPLE).unwrap();
    assert_eq!(d.weekday, 1);
    assert_eq!(d.year, 2006);
    assert_eq!(d.month, 1);
    assert_eq!(d.day, 2);
    assert_eq!(d.hour, 15);
    assert_eq!(d.minute, 4);
    assert_eq!(d.second, 5);
    assert!(!d.off_negative);
    assert_eq!(d.off_hour, 0);
    assert_eq!(d.off_minute, 0);
}

#[test]
fn stamp_roundtrip_sample() {
    let d = DateStamp::parse(SAMPLE).unwrap();
    let text = d.format();
    assert_eq!(text.as_str(), SAMPLE);
    let d2 = DateStamp::parse(text.as_str()).unwrap();
    assert_eq!(d, d2);
    assert_eq!(d.timestamp(), d2.timestamp());
}

#[test]
fn stamp_timestamp_matches_reference_parser() {
    for sample in [
        SAMPLE,
        "Sat Feb 29 23:59:59 +0000 2020",
        "Wed Dec 31 06:30:00 -0700 1969",
        "Fri Jul 15 12:00:00 +0530 2022",
        "Thu Jan 01 00:00:00 +0000 1970",
    ] {
        let d = DateStamp::parse(sample).unwrap();
        let reference = chrono::DateTime::parse_from_str(sample, "%a %b %d %H:%M:%S %z %Y")
            .unwrap()
            .timestamp();
        assert_eq!(d.timestamp(), reference, "{sample}");
    }
}

#[test]
fn stamp_epoch_is_zero() {
    let d = DateStamp::parse("Thu Jan 01 00:00:00 +0000 1970").unwrap();
    assert_eq!(d.timestamp(), 0);
}

#[test]
fn stamp_offset_sign_kept() {
    let d = DateStamp::parse("Mon Jan 02 15:04:05 -0000 2006").unwrap();
    assert!(d.off_negative);
    assert_eq!(d.format().as_str(), "Mon Jan 02 15:04:05 -0000 2006");
    let plus = DateStamp::parse(SAMPLE).unwrap();
    assert_eq!(d.timestamp(), plus.timestamp());
}

#[test]
fn stamp_rejects_malformed_text() {
    for bad in [
        "",
        "Mon Jan 2 15:04:05 +0000 2006",
        "Mon Foo 02 15:04:05 +0000 2006",
        "Xyz Jan 02 15:04:05 +0000 2006",
        "Mon Jan 02 15:04:05 +0000 06",
        "Mon Jan 02 15x04:05 +0000 2006",
        "Mon Feb 30 15:04:05 +0000 2006",
        "Mon Feb 29 15:04:05 +0000 2021",
        "Mon Jan 02 24:04:05 +0000 2006",
        "Mon Jan 02 15:04:05 ~0000 2006",
    ] {
        let r = DateStamp::parse(bad);
        assert!(matches!(r, Err(Error::MappingDefect(raw)) if raw == bad), "{bad}");
    }
}

#[test]
fn stamp_leap_day_accepted_in_leap_years() {
    assert!(DateStamp::parse("Sat Feb 29 00:00:00 +0000 2020").is_ok());
    assert!(DateStamp::parse("Tue Feb 29 00:00:00 +0000 2000").is_ok());
    assert!(DateStamp::parse("Thu Feb 29 00:00:00 +0000 1900").is_err());
}

#[test]
fn post_created_at_parses() {
    let p = gelbooru_api::Post {
        source: String::new(),
        directory: String::new(),
        height: 1,
        id: 1,
        image: String::new(),
        change: 0,
        owner: String::new(),
        parent_id: None,
        rating: "s".to_string(),
        sample: 0,
        preview_height: 1,
        preview_width: 1,
        sample_height: 1,
        sample_width: 1,
        score: 0,
        tags: String::new(),
        title: String::new(),
        width: 1,
        file_url: String::new(),
        created_at: SAMPLE.to_string(),
        post_locked: 0,
    };
    let d = p.created_at().unwrap();
    assert_eq!(d.year, 2006);
    let mut broken = p;
    broken.created_at = "yesterday".to_string();
    assert!(matches!(broken.created_at(), Err(Error::MappingDefect(_))));
}
