use ani_dock::cookie::{changed_snapshot, cookie_records, Cookie};

#[test]
fn read_cookie_removes_trailing_line_endings() {
    let cookie = Cookie::from_file_contents("foo=bar\r\n");

    assert_eq!(cookie.into_inner(), "foo=bar");
}

#[test]
fn cookie_contents_keep_inner_line_endings() {
    assert_eq!(Cookie::from_file_contents("a\nb\n\n\r").as_str(), "a\nb");
    assert_eq!(Cookie::from_file_contents("\r\n").as_str(), "");
    assert_eq!(Cookie::from_file_contents("").as_str(), "");
}

#[test]
fn cookie_accessors_give_back_the_text() {
    let cookie = Cookie::new("foo=bar; session=123");
    assert_eq!(cookie.as_str(), "foo=bar; session=123");
    assert_eq!(cookie.to_string(), "foo=bar; session=123");
    assert_eq!(Cookie::default().as_str(), "");
    let mut cookie = cookie;
    cookie.set_cookie("session=latest");
    assert_eq!(cookie.into_inner(), "session=latest");
}

#[test]
fn cookie_records_share_all_pairs_across_gamer_subdomains() {
    assert_eq!(
        cookie_records("foo=bar; session=abc==; ; BAHAID=123"),
        vec![
            "foo=bar; Domain=gamer.com.tw".to_owned(),
            "session=abc==; Domain=gamer.com.tw".to_owned(),
            "BAHAID=123; Domain=gamer.com.tw".to_owned(),
        ]
    );
}

#[test]
fn cookie_records_of_an_empty_header_are_empty() {
    assert!(cookie_records("").is_empty());
    assert!(cookie_records(" ; ;").is_empty());
    assert_eq!(
        cookie_records("session=new"),
        vec!["session=new; Domain=gamer.com.tw".to_owned()]
    );
}

#[test]
fn snapshot_change_is_reported_only_when_the_jar_changed() {
    assert_eq!(changed_snapshot("session=abc", "session=abc".to_owned()), None);
    assert_eq!(
        changed_snapshot("session=abc", String::new()),
        Some(String::new())
    );
    assert_eq!(
        changed_snapshot("", "session=abc; device=123".to_owned()),
        Some("session=abc; device=123".to_owned())
    );
}
