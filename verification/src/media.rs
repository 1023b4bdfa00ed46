//! The media of a post: the answer of the fxtwitter API, as far as it is
//! read, and the list of downloadable videos and photos built from it.

use vstd::prelude::*;
use crate::filename::{image_extension, image_extension_of, suggested_filename, suggested_name};
use crate::status_url::is_substring;
use crate::text::{before_first, chars_of, decimal, find_first, push_decimal, string_of_range};

verus! {

/// One encoding of a video offered by the API.
pub struct FxVariant {
    pub content_type: Option<String>,
    pub bitrate: Option<u64>,
    pub url: String,
}

/// A video of a post. `url` is the best MP4 that fxtwitter picked itself.
pub struct FxVideo {
    pub url: String,
    pub thumbnail_url: Option<String>,
    pub width: Option<u32>,
    pub height: Option<u32>,
    pub variants: Vec<FxVariant>,
}

/// A photo of a post.
pub struct FxPhoto {
    pub url: String,
    pub width: Option<u32>,
    pub height: Option<u32>,
}

/// The media attached to a post.
pub struct FxMedia {
    pub videos: Vec<FxVideo>,
    pub photos: Vec<FxPhoto>,
}

/// The author of a post.
pub struct FxAuthor {
    pub name: String,
}

/// A post.
pub struct FxTweet {
    pub text: String,
    pub author: FxAuthor,
    pub media: Option<FxMedia>,
}

/// The API's answer about a post.
pub struct FxResponse {
    pub code: i32,
    pub tweet: Option<FxTweet>,
}

/// One downloadable video or photo of a post.
pub struct MediaItem {
    /// `video` or `photo`.
    pub kind: String,
    /// The URL of the best quality chosen for download.
    pub best_url: String,
    pub thumbnail_url: Option<String>,
    pub width: Option<u32>,
    pub height: Option<u32>,
    pub bitrate: Option<u64>,
    pub suggested_filename: String,
}

/// A post with its downloadable media.
pub struct MediaInfo {
    pub screen_name: String,
    pub author_name: String,
    pub id: String,
    pub text: String,
    pub items: Vec<MediaItem>,
}

/// Why a post's media could not be listed.
#[derive(PartialEq, Eq, Structural, Clone, Copy, Debug)]
pub enum InspectError {
    /// The URL is not that of a post on X (Twitter).
    UnrecognizedUrl,
    /// The API answered with this unsuccessful HTTP status.
    ApiStatus(u16),
    /// The API did not return the post.
    PostUnavailable,
    /// The post has neither videos nor photos.
    NoMedia,
}

impl InspectError {
    /// The message shown to the user.
    pub fn message(&self) -> (m: String)
        ensures
            m@ == match self {
                InspectError::UnrecognizedUrl => "X(Twitter)の投稿URLとして認識できませんでした"@,
                InspectError::ApiStatus(code) => "API応答エラー: HTTP "@ + decimal(*code as nat),
                InspectError::PostUnavailable => "投稿を取得できませんでした"@,
                InspectError::NoMedia => "この投稿に動画・画像はありません"@,
            },
    {
        match self {
            InspectError::UnrecognizedUrl => String::from_str("X(Twitter)の投稿URLとして認識できませんでした"),
            InspectError::ApiStatus(code) => {
                let mut m = String::from_str("API応答エラー: HTTP ");
                push_decimal(&mut m, *code as u64);
                m
            },
            InspectError::PostUnavailable => String::from_str("投稿を取得できませんでした"),
            InspectError::NoMedia => String::from_str("この投稿に動画・画像はありません"),
        }
    }
}

/// `s` contains `part`.
pub open spec fn contains_seq(s: Seq<char>, part: Seq<char>) -> bool {
    is_substring(part, s)
}

/// A variant that may be chosen for download: its content type mentions
/// `mp4` and its bitrate is known.
pub open spec fn is_mp4_candidate(v: FxVariant) -> bool {
    &&& v.content_type matches Some(ct) && contains_seq(ct@, "mp4"@)
    &&& v.bitrate is Some
}

/// Variant `i` is a candidate with the highest bitrate among the candidates,
/// and no later candidate has as high a bitrate (of equal ones, the last is
/// meant).
pub open spec fn is_best_variant(vs: Seq<FxVariant>, i: int) -> bool {
    &&& 0 <= i < vs.len()
    &&& is_mp4_candidate(vs[i])
    &&& forall|j: int|
        0 <= j < vs.len() && #[trigger] is_mp4_candidate(vs[j]) ==> vs[j].bitrate->0 <= vs[i].bitrate->0
    &&& forall|j: int|
        i < j < vs.len() && #[trigger] is_mp4_candidate(vs[j]) ==> vs[j].bitrate->0 < vs[i].bitrate->0
}

/// Some variant is a candidate.
pub open spec fn has_mp4_candidate(vs: Seq<FxVariant>) -> bool {
    exists|i: int| 0 <= i < vs.len() && #[trigger] is_mp4_candidate(vs[i])
}

/// The variant chosen for download, if any is a candidate.
pub open spec fn best_variant(vs: Seq<FxVariant>) -> Option<int> {
    if has_mp4_candidate(vs) {
        Some(choose|i: int| is_best_variant(vs, i))
    } else {
        None
    }
}

/// Only one variant is the best.
pub proof fn lemma_best_variant_unique(vs: Seq<FxVariant>, i: int, j: int)
    requires
        is_best_variant(vs, i),
        is_best_variant(vs, j),
    ensures
        i == j,
{
    if i < j {
        assert(is_mp4_candidate(vs[j]));
    } else if j < i {
        assert(is_mp4_candidate(vs[i]));
    }
}

/// Among the first `k` variants, the candidate with the highest bitrate (the
/// last of equal ones), if any is a candidate.
proof fn lemma_best_variant_in_prefix(vs: Seq<FxVariant>, k: int) -> (b: Option<int>)
    requires
        0 <= k <= vs.len(),
    ensures
        b is None ==> forall|j: int| 0 <= j < k ==> !#[trigger] is_mp4_candidate(vs[j]),
        b matches Some(i) ==> {
            &&& 0 <= i < k
            &&& is_mp4_candidate(vs[i])
            &&& forall|j: int|
                0 <= j < k && #[trigger] is_mp4_candidate(vs[j]) ==> vs[j].bitrate->0 <= vs[i].bitrate->0
            &&& forall|j: int|
                i < j < k && #[trigger] is_mp4_candidate(vs[j]) ==> vs[j].bitrate->0 < vs[i].bitrate->0
        },
    decreases k,
{
    if k == 0 {
        None
    } else {
        let prev = lemma_best_variant_in_prefix(vs, k - 1);
        if is_mp4_candidate(vs[k - 1]) && (prev is None || vs[k - 1].bitrate->0 >= vs[prev->0].bitrate->0) {
            Some(k - 1)
        } else {
            prev
        }
    }
}

/// The variant chosen for a video is an MP4 variant (its content type
/// mentions `mp4`) with a known bitrate, and no MP4 variant with a known
/// bitrate has a higher one, whatever the bitrates are; of equal highest
/// bitrates the last variant is chosen. A variant is chosen whenever some MP4
/// variant has a known bitrate.
pub proof fn lemma_best_variant_is_highest_mp4(vs: Seq<FxVariant>)
    ensures
        (exists|j: int|
            0 <= j < vs.len() && (#[trigger] vs[j]).content_type is Some && is_substring(
                "mp4"@,
                vs[j].content_type->0@,
            ) && vs[j].bitrate is Some) <==> best_variant(vs) is Some,
        best_variant(vs) matches Some(b) ==> {
            &&& 0 <= b < vs.len()
            &&& vs[b].content_type is Some
            &&& is_substring("mp4"@, vs[b].content_type->0@)
            &&& vs[b].bitrate is Some
            &&& forall|j: int|
                0 <= j < vs.len() && (#[trigger] vs[j]).content_type is Some && is_substring(
                    "mp4"@,
                    vs[j].content_type->0@,
                ) && vs[j].bitrate is Some ==> vs[j].bitrate->0 <= vs[b].bitrate->0
            &&& forall|j: int|
                b < j < vs.len() && (#[trigger] vs[j]).content_type is Some && is_substring(
                    "mp4"@,
                    vs[j].content_type->0@,
                ) && vs[j].bitrate is Some ==> vs[j].bitrate->0 < vs[b].bitrate->0
        },
{
    if has_mp4_candidate(vs) {
        let b = lemma_best_variant_in_prefix(vs, vs.len() as int);
        let w = choose|i: int| 0 <= i < vs.len() && #[trigger] is_mp4_candidate(vs[i]);
        assert(is_mp4_candidate(vs[w]));
        assert(is_best_variant(vs, b->0));
        let c = choose|i: int| is_best_variant(vs, i);
        lemma_best_variant_unique(vs, b->0, c);
        assert forall|j: int|
            0 <= j < vs.len() && (#[trigger] vs[j]).content_type is Some && is_substring(
                "mp4"@,
                vs[j].content_type->0@,
            ) && vs[j].bitrate is Some implies vs[j].bitrate->0 <= vs[c].bitrate->0 by {
            assert(is_mp4_candidate(vs[j]));
        }
        assert forall|j: int|
            c < j < vs.len() && (#[trigger] vs[j]).content_type is Some && is_substring(
                "mp4"@,
                vs[j].content_type->0@,
            ) && vs[j].bitrate is Some implies vs[j].bitrate->0 < vs[c].bitrate->0 by {
            assert(is_mp4_candidate(vs[j]));
        }
    } else {
        assert forall|j: int| 0 <= j < vs.len() implies !((#[trigger] vs[j]).content_type is Some
            && is_substring("mp4"@, vs[j].content_type->0@) && vs[j].bitrate is Some) by {
            if vs[j].content_type is Some && is_substring("mp4"@, vs[j].content_type->0@)
                && vs[j].bitrate is Some {
                assert(is_mp4_candidate(vs[j]));
            }
        }
    }
}

/// Whether `s` contains `part`.
fn contains_chars(s: &str, part: &str) -> (r: bool)
    ensures
        r == contains_seq(s@, part@),
{
    let v = chars_of(s);
    let p = chars_of(part);
    if p.len() == 0 {
        assert(s@.subrange(0, 0 + part@.len() as int) =~= part@);
        return true;
    }
    if p.len() > v.len() {
        return false;
    }
    let end = v.len() - p.len() + 1;
    let mut k: usize = 0;
    while k < end
        invariant
            v@ == s@,
            p@ == part@,
            p@.len() > 0,
            end == v@.len() - p@.len() + 1,
            v@.len() <= usize::MAX,
            k <= end,
            forall|j: int| 0 <= j < k ==> #[trigger] v@.subrange(j, j + p@.len()) != p@,
        decreases end - k,
    {
        let mut i: usize = 0;
        let mut same = true;
        while same && i < p.len()
            invariant
                k + p@.len() <= v@.len() <= usize::MAX,
                i <= p@.len(),
                forall|j: int| 0 <= j < i ==> v@[k + j] == p@[j],
                !same ==> i < p@.len() && v@[k + i] != p@[i as int],
            decreases p@.len() - i + (if same { 1int } else { 0int }),
        {
            if v[k + i] == p[i] {
                i = i + 1;
            } else {
                same = false;
            }
        }
        if same {
            assert(s@.subrange(k as int, k + part@.len()) =~= part@);
            return true;
        }
        assert(v@.subrange(k as int, k + p@.len())[i as int] != p@[i as int]);
        k = k + 1;
    }
    assert forall|j: int| 0 <= j && j + p@.len() <= v@.len() implies #[trigger] v@.subrange(j, j + p@.len())
        != p@ by {
        assert(j < end);
    }
    false
}

/// Whether the variant may be chosen for download.
fn mp4_candidate(v: &FxVariant) -> (r: bool)
    ensures
        r == is_mp4_candidate(*v),
{
    match &v.content_type {
        Some(ct) => v.bitrate.is_some() && contains_chars(ct.as_str(), "mp4"),
        None => false,
    }
}

/// Index of the variant chosen for download, if any is a candidate.
pub fn select_best_variant(vs: &Vec<FxVariant>) -> (r: Option<usize>)
    ensures
        has_mp4_candidate(vs@) ==> (r matches Some(i) && is_best_variant(vs@, i as int)),
        !has_mp4_candidate(vs@) ==> r is None,
{
    let mut best: Option<usize> = None;
    let mut best_rate: u64 = 0;
    let mut i: usize = 0;
    while i < vs.len()
        invariant
            i <= vs@.len(),
            best is None ==> forall|j: int| 0 <= j < i ==> !#[trigger] is_mp4_candidate(vs@[j]),
            best matches Some(b) ==> {
                &&& b < i
                &&& is_mp4_candidate(vs@[b as int])
                &&& vs@[b as int].bitrate->0 == best_rate
                &&& forall|j: int| 0 <= j < i && #[trigger] is_mp4_candidate(vs@[j]) ==> vs@[j].bitrate->0 <= best_rate
                &&& forall|j: int| b < j < i && #[trigger] is_mp4_candidate(vs@[j]) ==> vs@[j].bitrate->0 < best_rate
            },
        decreases vs@.len() - i,
    {
        if mp4_candidate(&vs[i]) {
            let rate = match vs[i].bitrate {
                Some(b) => b,
                None => 0,
            };
            if best.is_none() || rate >= best_rate {
                best = Some(i);
                best_rate = rate;
            }
        }
        i = i + 1;
    }
    best
}

/// A copy of an optional string.
fn copy_text(o: &Option<String>) -> (r: Option<String>)
    ensures
        r.deep_view() == o.deep_view(),
{
    match o {
        Some(s) => Some(s.clone()),
        None => None,
    }
}

/// `item` is the entry for `video`, number `index` of `total` items of post
/// `id` by `screen_name`: the best candidate variant's URL and bitrate, or
/// fxtwitter's own pick with an unknown bitrate where no variant is a
/// candidate; the video's thumbnail and size; an MP4 file name.
pub open spec fn is_video_item(
    item: MediaItem,
    video: FxVideo,
    screen_name: Seq<char>,
    id: Seq<char>,
    index: nat,
    total: nat,
) -> bool {
    &&& item.kind@ == "video"@
    &&& match best_variant(video.variants@) {
        Some(b) => item.best_url@ == video.variants@[b].url@ && item.bitrate == video.variants@[b].bitrate,
        None => item.best_url@ == video.url@ && item.bitrate is None,
    }
    &&& item.thumbnail_url.deep_view() == video.thumbnail_url.deep_view()
    &&& item.width == video.width
    &&& item.height == video.height
    &&& item.suggested_filename@ == suggested_name(screen_name, id, index, total, "mp4"@)
}

/// The URL of a photo at its original quality: its URL without the query,
/// with the single query `name=orig`.
pub open spec fn original_photo_url(url: Seq<char>) -> Seq<char> {
    before_first(url, '?') + "?name=orig"@
}

/// `item` is the entry for `photo`, number `index` of `total` items of post
/// `id` by `screen_name`: the photo at original quality, its own URL as
/// thumbnail, its size, no bitrate, and a file name with the extension of
/// its URL.
pub open spec fn is_photo_item(
    item: MediaItem,
    photo: FxPhoto,
    screen_name: Seq<char>,
    id: Seq<char>,
    index: nat,
    total: nat,
) -> bool {
    &&& item.kind@ == "photo"@
    &&& item.best_url@ == original_photo_url(photo.url@)
    &&& item.thumbnail_url.deep_view() == Some(photo.url@)
    &&& item.width == photo.width
    &&& item.height == photo.height
    &&& item.bitrate is None
    &&& item.suggested_filename@ == suggested_name(screen_name, id, index, total, image_extension_of(photo.url@))
}

/// Asking again for the original quality of a photo URL that already asks for
/// it gives the same URL: the query is always the single `name=orig`.
pub proof fn lemma_original_photo_url_idempotent(url: Seq<char>)
    ensures
        original_photo_url(original_photo_url(url)) == original_photo_url(url),
{
    reveal_strlit("?name=orig");
    let base = before_first(url, '?');
    let u = original_photo_url(url);
    crate::text::lemma_first_index_bounds(url, '?');
    assert(base.len() == crate::text::first_index(url, '?'));
    assert forall|j: int| 0 <= j < base.len() implies u[j] != '?' by {
        assert(u[j] == url[j]);
    }
    assert(u[base.len() as int] == '?');
    crate::text::lemma_first_index(u, '?', base.len() as int);
    assert(before_first(u, '?') =~= base);
}

/// The URL of a photo at its original quality (see [`original_photo_url`]).
pub fn original_photo_url_of(url: &str) -> (r: String)
    ensures
        r@ == original_photo_url(url@),
{
    let v = chars_of(url);
    let end = find_first(v.as_slice(), '?');
    let mut r = string_of_range(v.as_slice(), 0, end);
    r.append("?name=orig");
    r
}

/// The entry for a video (see [`is_video_item`]).
pub fn video_item(video: &FxVideo, screen_name: &str, id: &str, index: usize, total: usize) -> (item: MediaItem)
    ensures
        is_video_item(item, *video, screen_name@, id@, index as nat, total as nat),
{
    let best = select_best_variant(&video.variants);
    proof {
        if has_mp4_candidate(video.variants@) {
            let c = choose|i: int| is_best_variant(video.variants@, i);
            lemma_best_variant_unique(video.variants@, best->0 as int, c);
        }
    }
    let (best_url, bitrate) = match best {
        Some(b) => (video.variants[b].url.clone(), video.variants[b].bitrate),
        None => (video.url.clone(), None),
    };
    MediaItem {
        kind: String::from_str("video"),
        best_url,
        thumbnail_url: copy_text(&video.thumbnail_url),
        width: video.width,
        height: video.height,
        bitrate,
        suggested_filename: suggested_filename(screen_name, id, index, total, "mp4"),
    }
}

/// The entry for a photo (see [`is_photo_item`]).
pub fn photo_item(photo: &FxPhoto, screen_name: &str, id: &str, index: usize, total: usize) -> (item: MediaItem)
    ensures
        is_photo_item(item, *photo, screen_name@, id@, index as nat, total as nat),
{
    let ext = image_extension(photo.url.as_str());
    MediaItem {
        kind: String::from_str("photo"),
        best_url: original_photo_url_of(photo.url.as_str()),
        thumbnail_url: Some(photo.url.clone()),
        width: photo.width,
        height: photo.height,
        bitrate: None,
        suggested_filename: suggested_filename(screen_name, id, index, total, ext.as_str()),
    }
}


/// The videos and the photos of a post's media; none without media.
pub open spec fn media_lists(media: Option<FxMedia>) -> (Seq<FxVideo>, Seq<FxPhoto>) {
    match media {
        Some(m) => (m.videos@, m.photos@),
        None => (Seq::empty(), Seq::empty()),
    }
}

/// `items` lists the videos first, then the photos, each in the API's order,
/// numbered from 1 across both.
pub open spec fn lists_media(
    items: Seq<MediaItem>,
    videos: Seq<FxVideo>,
    photos: Seq<FxPhoto>,
    screen_name: Seq<char>,
    id: Seq<char>,
) -> bool {
    let total = videos.len() + photos.len();
    &&& items.len() == total
    &&& forall|k: int|
        0 <= k < videos.len() ==> is_video_item(
            #[trigger] items[k],
            videos[k],
            screen_name,
            id,
            (k + 1) as nat,
            total,
        )
    &&& forall|k: int|
        0 <= k < photos.len() ==> is_photo_item(
            #[trigger] items[videos.len() + k],
            photos[k],
            screen_name,
            id,
            (videos.len() + k + 1) as nat,
            total,
        )
}

/// The download list keeps the API's order: entry `k` is built from video
/// `k`, and entry `videos.len() + k` from photo `k`, so that each entry
/// carries the size and thumbnail of the medium at its own position (a
/// photo's thumbnail is that photo's URL) and is numbered by its position
/// from 1.
pub proof fn lemma_media_list_keeps_api_order(
    items: Seq<MediaItem>,
    videos: Seq<FxVideo>,
    photos: Seq<FxPhoto>,
    screen_name: Seq<char>,
    id: Seq<char>,
)
    requires
        lists_media(items, videos, photos, screen_name, id),
    ensures
        items.len() == videos.len() + photos.len(),
        forall|k: int|
            0 <= k < videos.len() ==> {
                &&& (#[trigger] items[k]).kind@ == "video"@
                &&& items[k].thumbnail_url.deep_view() == videos[k].thumbnail_url.deep_view()
                &&& items[k].width == videos[k].width
                &&& items[k].height == videos[k].height
                &&& items[k].suggested_filename@ == suggested_name(
                    screen_name,
                    id,
                    (k + 1) as nat,
                    (videos.len() + photos.len()) as nat,
                    "mp4"@,
                )
            },
        forall|k: int|
            0 <= k < photos.len() ==> {
                &&& (#[trigger] items[videos.len() + k]).kind@ == "photo"@
                &&& items[videos.len() + k].thumbnail_url.deep_view() == Some(photos[k].url@)
                &&& items[videos.len() + k].best_url@ == before_first(photos[k].url@, '?') + "?name=orig"@
                &&& items[videos.len() + k].width == photos[k].width
                &&& items[videos.len() + k].height == photos[k].height
                &&& items[videos.len() + k].suggested_filename@ == suggested_name(
                    screen_name,
                    id,
                    (videos.len() + k + 1) as nat,
                    (videos.len() + photos.len()) as nat,
                    image_extension_of(photos[k].url@),
                )
            },
{
    assert forall|k: int| 0 <= k < photos.len() implies (#[trigger] items[videos.len() + k]).thumbnail_url.deep_view()
        == Some(photos[k].url@) by {
        assert(is_photo_item(
            items[videos.len() + k],
            photos[k],
            screen_name,
            id,
            (videos.len() + k + 1) as nat,
            (videos.len() + photos.len()) as nat,
        ));
    }
}

/// The number of media items of a post fits in `usize`.
pub open spec fn media_count_fits(response: FxResponse) -> bool {
    response.tweet matches Some(t) ==> (t.media matches Some(m) ==> m.videos@.len() + m.photos@.len()
        <= usize::MAX)
}

/// The downloadable media of post `id` by `screen_name`, from the API's
/// answer about it: an error where the answer holds no post or the post has
/// no media, and otherwise the post's author and text with its videos and
/// photos (see [`lists_media`]).
pub fn media_info_from_response(screen_name: String, id: String, response: FxResponse) -> (r: Result<
    MediaInfo,
    InspectError,
>)
    requires
        media_count_fits(response),
    ensures
        match response.tweet {
            None => r == Err::<MediaInfo, InspectError>(InspectError::PostUnavailable),
            Some(t) => {
                let (videos, photos) = media_lists(t.media);
                if videos.len() + photos.len() == 0 {
                    r == Err::<MediaInfo, InspectError>(InspectError::NoMedia)
                } else {
                    &&& r is Ok
                    &&& r->Ok_0.screen_name@ == screen_name@
                    &&& r->Ok_0.id@ == id@
                    &&& r->Ok_0.author_name@ == t.author.name@
                    &&& r->Ok_0.text@ == t.text@
                    &&& lists_media(r->Ok_0.items@, videos, photos, screen_name@, id@)
                }
            },
        },
{
    let tweet = match response.tweet {
        Some(t) => t,
        None => {
            return Err(InspectError::PostUnavailable);
        },
    };
    let ghost lists = media_lists(tweet.media);
    let (videos, photos) = match tweet.media {
        Some(media) => (media.videos, media.photos),
        None => (Vec::new(), Vec::new()),
    };
    assert(videos@ == lists.0 && photos@ == lists.1);
    let nv = videos.len();
    let total = nv + photos.len();
    let mut items: Vec<MediaItem> = Vec::new();
    let mut k: usize = 0;
    while k < nv
        invariant
            nv == videos@.len(),
            total == videos@.len() + photos@.len(),
            k <= nv,
            items@.len() == k,
            forall|j: int|
                0 <= j < k ==> is_video_item(
                    #[trigger] items@[j],
                    videos@[j],
                    screen_name@,
                    id@,
                    (j + 1) as nat,
                    total as nat,
                ),
        decreases nv - k,
    {
        let item = video_item(&videos[k], screen_name.as_str(), id.as_str(), k + 1, total);
        items.push(item);
        k = k + 1;
    }
    let mut k: usize = 0;
    while k < photos.len()
        invariant
            nv == videos@.len(),
            total == videos@.len() + photos@.len(),
            k <= photos@.len(),
            items@.len() == nv + k,
            forall|j: int|
                0 <= j < nv ==> is_video_item(
                    #[trigger] items@[j],
                    videos@[j],
                    screen_name@,
                    id@,
                    (j + 1) as nat,
                    total as nat,
                ),
            forall|j: int|
                0 <= j < k ==> is_photo_item(
                    #[trigger] items@[nv + j],
                    photos@[j],
                    screen_name@,
                    id@,
                    (nv + j + 1) as nat,
                    total as nat,
                ),
        decreases photos@.len() - k,
    {
        let item = photo_item(&photos[k], screen_name.as_str(), id.as_str(), nv + k + 1, total);
        items.push(item);
        k = k + 1;
    }
    if items.len() == 0 {
        return Err(InspectError::NoMedia);
    }
    Ok(MediaInfo { screen_name, author_name: tweet.author.name, id, text: tweet.text, items })
}

} // verus!
