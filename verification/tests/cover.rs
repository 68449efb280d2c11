use ani_dock::cover::{
    cover_etag, cover_response, if_none_match, strip_weak_prefix, CoverReply, CACHE_CONTROL_VALUE,
};
use ani_dock::stored::CoverImage;

#[test]
fn if_none_match_supports_lists_and_weak_comparison() {
    let headers = vec!["\"other\", W/\"cover-id\"".to_owned()];

    assert!(if_none_match(&headers, "\"cover-id\""));
    assert!(!if_none_match(&headers, "\"missing\""));
}

#[test]
fn if_none_match_supports_wildcard() {
    let headers = vec!["*".to_owned()];

    assert!(if_none_match(&headers, "\"cover-id\""));
}

#[test]
fn if_none_match_without_header_does_not_match() {
    assert!(!if_none_match(&Vec::new(), "\"cover-id\""));
    assert!(!if_none_match(&vec![String::new()], "\"cover-id\""));
}

#[test]
fn if_none_match_looks_at_every_header_value() {
    let headers = vec!["\"a\"".to_owned(), " W/\"b\" ,\t\"c\" ".to_owned()];
    assert!(if_none_match(&headers, "\"c\""));
    assert!(if_none_match(&headers, "W/\"b\""));
    assert!(!if_none_match(&headers, "\"d\""));
}

#[test]
fn strip_weak_prefix_removes_only_the_marker() {
    assert_eq!(strip_weak_prefix("W/\"x\""), "\"x\"");
    assert_eq!(strip_weak_prefix("\"x\""), "\"x\"");
    assert_eq!(strip_weak_prefix("W"), "W");
    assert_eq!(strip_weak_prefix("w/\"x\""), "w/\"x\"");
}

#[test]
fn cover_etag_quotes_the_id() {
    assert_eq!(cover_etag("abc"), "\"abc\"");
}

fn cover() -> CoverImage {
    CoverImage {
        id: 0xa1a2a3a4b1b2c1c2d1d2d3d4d5d6d7d8,
        url: "https://example.com/cover.jpg".to_owned(),
        bytes: b"image".to_vec(),
        mime_type: "image/png".to_owned(),
    }
}

#[test]
fn cover_response_sends_the_image_with_its_entity_tag() {
    let response = cover_response(&vec!["\"different-cover\"".to_owned()], cover());
    assert_eq!(response.etag, "\"a1a2a3a4-b1b2-c1c2-d1d2-d3d4d5d6d7d8\"");
    assert_eq!(response.cache_control, CACHE_CONTROL_VALUE);
    match response.reply {
        CoverReply::Image { mime_type, bytes } => {
            assert_eq!(mime_type, "image/png");
            assert_eq!(bytes, b"image".to_vec());
        }
        CoverReply::NotModified => panic!("a different entity tag should get the image"),
    }
}

#[test]
fn cover_response_answers_not_modified_for_a_matching_tag() {
    let response = cover_response(
        &vec!["W/\"a1a2a3a4-b1b2-c1c2-d1d2-d3d4d5d6d7d8\"".to_owned()],
        cover(),
    );
    assert!(matches!(response.reply, CoverReply::NotModified));
    assert_eq!(response.cache_control, CACHE_CONTROL_VALUE);
}
