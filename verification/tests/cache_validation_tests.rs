use webservices::cache_validation::{body_etag, choose_etag, existing_etag, is_not_modified, ETag, TagChoice};

fn strong(tag: &str) -> ETag {
    ETag { weak: false, tag: tag.to_string() }
}

#[test]
fn etag_header_text() {
    assert_eq!(strong("abc").header_value(), "\"abc\"");
    assert_eq!(ETag { weak: true, tag: "abc".to_string() }.header_value(), "W/\"abc\"");
}

#[test]
fn existing_etag_parses_like_the_etag_crate() {
    let e = existing_etag(Some("W/\"xyz\"")).unwrap();
    assert!(e.weak);
    assert_eq!(e.tag, "xyz");
    let s = existing_etag(Some("\"1-2\"")).unwrap();
    assert!(!s.weak);
    assert_eq!(s.tag, "1-2");
    assert!(existing_etag(Some("xyz")).is_none());
    assert!(existing_etag(Some("\"")).is_none());
    assert!(existing_etag(Some("W/\"")).is_none());
    assert!(existing_etag(Some("\"ž\"")).is_none());
    assert!(existing_etag(None).is_none());
    let long = format!("\"{}\"", "a".repeat(63));
    assert!(existing_etag(Some(&long)).is_none());
    let fits = format!("\"{}\"", "a".repeat(62));
    assert!(existing_etag(Some(&fits)).is_some());
}

#[test]
fn body_etag_hashes_nonempty_bodies() {
    assert!(body_etag(b"").is_none());
    let e = body_etag(b"hello").unwrap();
    assert!(!e.weak);
    assert_eq!(e.tag, etag::EntityTag::from_data(b"hello").tag());
    assert!(e.tag.starts_with("5-"));
}

#[test]
fn if_none_match_decides_by_weak_comparison() {
    let e = ETag { weak: true, tag: "v1".to_string() };
    assert!(is_not_modified(&e, Some("\"v1\""), None, None));
    assert!(is_not_modified(&e, Some("W/\"v1\""), None, None));
    assert!(!is_not_modified(&e, Some("\"v2\""), None, None));
    assert!(!is_not_modified(&e, Some("v1"), Some("Wed, 21 Oct 2015 07:28:00 GMT"), Some("Wed, 21 Oct 2015 07:28:00 GMT")));
}

#[test]
fn dates_decide_without_if_none_match() {
    let e = strong("v1");
    let lm = "Wed, 21 Oct 2015 07:28:00 GMT";
    assert!(is_not_modified(&e, None, Some(lm), Some(lm)));
    assert!(is_not_modified(&e, None, Some("Wed, 21 Oct 2015 09:28:00 +0100"), Some(lm)));
    assert!(!is_not_modified(&e, None, Some("Wed, 21 Oct 2015 07:27:59 GMT"), Some(lm)));
    assert!(!is_not_modified(&e, None, Some("yesterday"), Some(lm)));
    assert!(!is_not_modified(&e, None, Some(lm), None));
    assert!(!is_not_modified(&e, None, None, Some(lm)));
}

#[test]
fn etag_header_reads_back() {
    for e in [strong("12-345"), ETag { weak: true, tag: "x y".to_string() }, strong("")] {
        let back = existing_etag(Some(&e.header_value())).unwrap();
        assert_eq!(back.weak, e.weak);
        assert_eq!(back.tag, e.tag);
        assert!(is_not_modified(&e, Some(&back.header_value()), None, None));
    }
}

#[test]
fn existing_tag_is_preferred_and_empty_bodies_pass() {
    match choose_etag(Some("\"kept\""), Some(b"body")) {
        TagChoice::Existing(e) => assert_eq!(e.tag, "kept"),
        _ => panic!("an existing tag is kept"),
    }
    assert!(matches!(choose_etag(None, None), TagChoice::ReadBody));
    assert!(matches!(choose_etag(Some("bad"), None), TagChoice::ReadBody));
    assert!(matches!(choose_etag(None, Some(b"")), TagChoice::PassThrough));
    match choose_etag(Some("bad"), Some(b"hello")) {
        TagChoice::Computed(e) => {
            assert!(!e.weak);
            assert_eq!(e.tag, etag::EntityTag::from_data(b"hello").tag());
        }
        _ => panic!("a tag is computed"),
    }
}
