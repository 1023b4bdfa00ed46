use x_gettsu::status_url::{fxtwitter_status_url, parse_status_url, status_parts_of};

#[test]
fn parses_x_and_twitter_urls() {
    assert_eq!(
        parse_status_url("https://x.com/alice_1/status/1234567890?s=20"),
        Some(("alice_1".to_string(), "1234567890".to_string()))
    );
    assert_eq!(
        parse_status_url("https://twitter.com/Bob/status/42"),
        Some(("Bob".to_string(), "42".to_string()))
    );
    assert_eq!(
        parse_status_url("https://mobile.twitter.com/Bob/status/42/photo/1"),
        Some(("Bob".to_string(), "42".to_string()))
    );
}

#[test]
fn rejects_other_urls() {
    assert_eq!(parse_status_url("https://example.com/alice/status/1"), None);
    assert_eq!(parse_status_url("https://x.com/alice"), None);
    assert_eq!(parse_status_url("https://x.com/alice/status/abc"), None);
    assert_eq!(parse_status_url(""), None);
}

#[test]
fn status_parts_need_both_groups() {
    let full = Some(vec![Some("m".to_string()), Some("n".to_string()), Some("1".to_string())]);
    assert_eq!(status_parts_of(full), Some(("n".to_string(), "1".to_string())));
    assert_eq!(status_parts_of(Some(vec![Some("m".to_string()), None, Some("1".to_string())])), None);
    assert_eq!(status_parts_of(Some(vec![Some("m".to_string())])), None);
    assert_eq!(status_parts_of(None), None);
}

#[test]
fn api_url_for_post() {
    assert_eq!(fxtwitter_status_url("alice", "99"), "https://api.fxtwitter.com/alice/status/99");
}
