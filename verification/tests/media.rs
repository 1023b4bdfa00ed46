use x_gettsu::media::{
    media_info_from_response, original_photo_url_of, select_best_variant, FxAuthor, FxMedia, FxPhoto,
    FxResponse, FxTweet, FxVariant, FxVideo, InspectError, MediaInfo,
};

fn variant(ct: Option<&str>, bitrate: Option<u64>, url: &str) -> FxVariant {
    FxVariant { content_type: ct.map(|s| s.to_string()), bitrate, url: url.to_string() }
}

fn video(url: &str, variants: Vec<FxVariant>) -> FxVideo {
    FxVideo {
        url: url.to_string(),
        thumbnail_url: Some("thumb".to_string()),
        width: Some(1280),
        height: Some(720),
        variants,
    }
}

fn photo(url: &str) -> FxPhoto {
    FxPhoto { url: url.to_string(), width: Some(100), height: Some(50) }
}

fn response(media: Option<FxMedia>) -> FxResponse {
    FxResponse {
        code: 200,
        tweet: Some(FxTweet { text: "hello".to_string(), author: FxAuthor { name: "Alice".to_string() }, media }),
    }
}

fn ok(r: Result<MediaInfo, InspectError>) -> MediaInfo {
    match r {
        Ok(info) => info,
        Err(e) => panic!("unexpected error {:?}", e),
    }
}

#[test]
fn best_variant_is_highest_bitrate_mp4() {
    let vs = vec![
        variant(Some("video/mp4"), Some(832000), "a"),
        variant(Some("application/x-mpegURL"), Some(9000000), "b"),
        variant(Some("video/mp4"), Some(2176000), "c"),
        variant(Some("video/mp4"), None, "d"),
        variant(None, Some(5000000), "e"),
    ];
    assert_eq!(select_best_variant(&vs), Some(2));
}

#[test]
fn best_variant_ties_pick_the_last() {
    let vs = vec![variant(Some("video/mp4"), Some(5), "a"), variant(Some("video/mp4"), Some(5), "b")];
    assert_eq!(select_best_variant(&vs), Some(1));
    assert_eq!(select_best_variant(&vec![variant(Some("video/webm"), Some(5), "a")]), None);
}

#[test]
fn photo_url_gets_single_orig_query() {
    assert_eq!(
        original_photo_url_of("https://pbs.twimg.com/media/X.jpg?name=small&format=jpg"),
        "https://pbs.twimg.com/media/X.jpg?name=orig"
    );
    assert_eq!(original_photo_url_of("https://pbs.twimg.com/media/X.png"), "https://pbs.twimg.com/media/X.png?name=orig");
}

#[test]
fn media_info_lists_videos_then_photos() {
    let media = FxMedia {
        videos: vec![video(
            "fallback.mp4",
            vec![variant(Some("video/mp4"), Some(100), "low.mp4"), variant(Some("video/mp4"), Some(900), "high.mp4")],
        )],
        photos: vec![photo("https://pbs.twimg.com/media/P.PNG?name=small")],
    };
    let info = ok(media_info_from_response("alice".to_string(), "7".to_string(), response(Some(media))));
    assert_eq!(info.screen_name, "alice");
    assert_eq!(info.author_name, "Alice");
    assert_eq!(info.id, "7");
    assert_eq!(info.text, "hello");
    assert_eq!(info.items.len(), 2);
    let v = &info.items[0];
    assert_eq!(v.kind, "video");
    assert_eq!(v.best_url, "high.mp4");
    assert_eq!(v.bitrate, Some(900));
    assert_eq!(v.thumbnail_url.as_deref(), Some("thumb"));
    assert_eq!((v.width, v.height), (Some(1280), Some(720)));
    assert_eq!(v.suggested_filename, "alice_7_1.mp4");
    let p = &info.items[1];
    assert_eq!(p.kind, "photo");
    assert_eq!(p.best_url, "https://pbs.twimg.com/media/P.PNG?name=orig");
    assert_eq!(p.thumbnail_url.as_deref(), Some("https://pbs.twimg.com/media/P.PNG?name=small"));
    assert_eq!(p.bitrate, None);
    assert_eq!(p.suggested_filename, "alice_7_2.png");
}

#[test]
fn video_without_candidate_uses_fxtwitter_url() {
    let media = FxMedia { videos: vec![video("fallback.mp4", vec![])], photos: vec![] };
    let info = ok(media_info_from_response("bob".to_string(), "1".to_string(), response(Some(media))));
    assert_eq!(info.items[0].best_url, "fallback.mp4");
    assert_eq!(info.items[0].bitrate, None);
    assert_eq!(info.items[0].suggested_filename, "bob_1.mp4");
}

#[test]
fn missing_post_and_empty_media_are_errors() {
    let none = FxResponse { code: 404, tweet: None };
    assert!(matches!(
        media_info_from_response("a".to_string(), "1".to_string(), none),
        Err(InspectError::PostUnavailable)
    ));
    assert!(matches!(
        media_info_from_response("a".to_string(), "1".to_string(), response(None)),
        Err(InspectError::NoMedia)
    ));
    let empty = FxMedia { videos: vec![], photos: vec![] };
    assert!(matches!(
        media_info_from_response("a".to_string(), "1".to_string(), response(Some(empty))),
        Err(InspectError::NoMedia)
    ));
}

#[test]
fn error_messages() {
    assert_eq!(InspectError::UnrecognizedUrl.message(), "X(Twitter)の投稿URLとして認識できませんでした");
    assert_eq!(InspectError::PostUnavailable.message(), "投稿を取得できませんでした");
    assert_eq!(InspectError::NoMedia.message(), "この投稿に動画・画像はありません");
    assert_eq!(InspectError::ApiStatus(404).message(), "API応答エラー: HTTP 404");
}
